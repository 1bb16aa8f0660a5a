//! A mounted view: what is kept, what commands reach, what scrolls.

use ducktape::render::commands::Effect;
use ducktape::render::commands::Picture;
use ducktape::render::commands::ScrollRequest;
use ducktape::render::commands::Sense;
use ducktape::render::commands::WidgetCommand;
use ducktape::render::keyed::KeySet;
use ducktape::render::keyed::Keyed;
use ducktape::render::layout::dialog_entry;
use ducktape::render::layout::ContainerNode;
use ducktape::render::layout::Fresh;
use ducktape::render::layout::NativeId;
use ducktape::render::scroll::report;
use ducktape::render::scroll::settle;
use ducktape::render::scroll::virtual_rows;
use ducktape::render::scroll::wrap_virtual_rows;
use ducktape::render::scroll::Alignment;
use ducktape::render::scroll::Bar;
use ducktape::render::scroll::Change;
use ducktape::render::scroll::DrawnRow;
use ducktape::render::scroll::Estimate;
use ducktape::render::scroll::Move;
use ducktape::render::scroll::Remeasured;
use ducktape::render::scroll::ScrollNode;
use ducktape::render::scroll::Scroller;
use ducktape::render::scroll::Stood;
use ducktape::render::tree::count;
use ducktape::render::tree::walk_authored_paths;
use ducktape::render::tree::Kind;
use ducktape::render::tree::Node;
use ducktape::render::tree::Role;
use ducktape::render::tree::ScrollAnchor;
use ducktape::render::tree::ScrollDirection;
use ducktape::render::tree::VariableListKey;
use ducktape::render::view::Event;
use ducktape::render::view::ScrollPresentation;
use ducktape::render::view::Sensor;
use ducktape::render::view::ViewTree;
use ducktape::render::view::Position;
use ducktape::render::view::VirtualRow;

fn node(id: Option<u64>, kind: Kind, children: Vec<Node>) -> Node {
    Node { id, kind, children }
}

fn container(id: Option<u64>, children: Vec<Node>) -> Node {
    node(id, Kind::Container { scrolls: false, focus: None }, children)
}

/// 1 { 2 { editor 3 }, { input 4 }, pick list 5 }
fn tree() -> Node {
    container(
        Some(1),
        vec![
            container(Some(2), vec![node(Some(3), Kind::Editor, vec![])]),
            container(None, vec![node(Some(4), Kind::Input, vec![])]),
            node(Some(5), Kind::PickList, vec![]),
        ],
    )
}

fn mounted() -> ViewTree {
    let mut view = ViewTree::new(tree());
    for path in [vec![1], vec![1, 2], vec![1, 2, 3], vec![1, 4], vec![1, 5]] {
        view.mounted.insert(path);
    }
    view
}

#[test]
fn a_walk_names_every_node_by_the_ids_above_it() {
    let root = tree();
    let walked = walk_authored_paths(&root);
    let paths: Vec<_> = walked.iter().map(|visit| visit.path.clone()).collect();
    assert_eq!(
        paths,
        vec![vec![1], vec![1, 2], vec![1, 2, 3], vec![1], vec![1, 4], vec![1, 5]]
    );
    let focusable = count(&root, &walked, Role::Focusable);
    assert!(focusable.contains(&vec![1]) && focusable.contains(&vec![1, 2]));
    assert!(!focusable.contains(&vec![1, 4]));
    assert!(count(&root, &walked, Role::Picker).contains(&vec![1, 5]));
}

#[test]
fn a_target_is_the_end_of_the_path_it_names() {
    let view = mounted();
    assert_eq!(view.resolve_target(&[3]), Some(vec![1, 2, 3]));
    assert_eq!(view.resolve_target(&[2, 3]), Some(vec![1, 2, 3]));
    assert_eq!(view.resolve_target(&[1]), Some(vec![1]));
    assert_eq!(view.resolve_target(&[1, 3]), None);
    assert_eq!(view.resolve_target(&[]), None);
    assert_eq!(view.resolve_target(&[9]), None);
}

#[test]
fn focus_on_a_container_takes_a_handle_and_keeps_it() {
    let mut view = mounted();
    view.stale = false;
    let focus = || WidgetCommand::Focus { target: vec![2] };
    let effect = view.execute_widget_command(focus(), Ok(()), &[], 70);
    assert!(matches!(effect, Ok(Effect::Focus { handle: 70 })));
    assert!(view.stale);
    let again = view.execute_widget_command(focus(), Ok(()), &[], 71);
    assert!(matches!(again, Ok(Effect::Focus { handle: 70 })));
    let asked = WidgetCommand::Focused { target: vec![2] };
    let effect = view.execute_widget_command(asked, Ok(()), &[3, 70], 0);
    assert!(matches!(effect, Ok(Effect::Answer(true))));
    assert!(!view.target_focused(&[2], &[3]));
    assert!(!view.target_focused(&[9], &[70]));
}

#[test]
fn commands_reach_what_stands_at_their_target() {
    let mut view = mounted();
    view.editors.insert(vec![1, 2, 3], 30);
    view.fields.insert(vec![1, 4], 40);
    view.pickers.insert(vec![1, 5], 50);
    let front = |target: Vec<u64>| WidgetCommand::CursorFront { target };
    let focus = |target: Vec<u64>| WidgetCommand::Focus { target };
    assert!(matches!(
        view.input_command(&[3], &front(vec![3]), 0),
        Ok(Effect::Editor { editor: 30 })
    ));
    assert!(matches!(
        view.input_command(&[4], &focus(vec![4]), 0),
        Ok(Effect::FocusField { field: 40 })
    ));
    assert!(matches!(view.input_command(&[4], &front(vec![4]), 0), Ok(Effect::Nothing)));
    assert!(matches!(
        view.input_command(&[5], &focus(vec![5]), 0),
        Ok(Effect::FocusPicker { picker: 50 })
    ));
    assert!(matches!(view.input_command(&[9], &focus(vec![9]), 0), Ok(Effect::Nothing)));
    let act = || WidgetCommand::EditorAction { target: vec![3], tag: "bold".to_owned() };
    assert_eq!(
        view.execute_widget_command(act(), Ok(()), &[], 0).unwrap_err(),
        "editor action target is not a mounted editor"
    );
    view.editor_store = Some(8);
    assert!(matches!(
        view.execute_widget_command(act(), Ok(()), &[], 0),
        Ok(Effect::Act { store: 8, path, tag }) if path == vec![1, 2, 3] && tag == "bold"
    ));
    assert_eq!(
        view.execute_widget_command(act(), Err("too long".to_owned()), &[], 0).unwrap_err(),
        "too long"
    );
}

#[test]
fn a_guests_handle_must_be_mounted() {
    let mut view = mounted();
    let command = || WidgetCommand::FocusHandle { handle: 6 };
    assert_eq!(
        view.execute_widget_command(command(), Ok(()), &[], 0).unwrap_err(),
        "focus handle is not mounted"
    );
    view.guest_focus_targets.insert(6, 60);
    assert!(matches!(
        view.execute_widget_command(command(), Ok(()), &[], 0),
        Ok(Effect::Focus { handle: 60 })
    ));
}

#[test]
fn focus_walks_the_ring_both_ways() {
    let mut view = mounted();
    assert!(matches!(view.focus_relative(true, &[], 0), Ok(Effect::Nothing)));
    view.focus_targets.insert(vec![1, 2], 20);
    view.editors.insert(vec![1, 2, 3], 30);
    view.pickers.insert(vec![1, 5], 50);
    let mut next = |forward, focused: &[u64]| match view.focus_relative(forward, focused, 0) {
        Ok(Effect::Focus { handle }) => handle,
        Ok(Effect::Editor { editor }) => editor,
        Ok(Effect::FocusPicker { picker }) => picker,
        other => panic!("{other:?}"),
    };
    assert_eq!(next(true, &[]), 20);
    assert_eq!(next(false, &[]), 50);
    assert_eq!(next(true, &[20]), 30);
    assert_eq!(next(true, &[30]), 50);
    assert_eq!(next(true, &[50]), 20);
    assert_eq!(next(false, &[20]), 50);
    assert_eq!(next(false, &[50]), 30);
}

fn rows(keys: &[(&str, u64)]) -> Vec<VirtualRow> {
    keys.iter()
        .map(|(key, face)| VirtualRow { key: (*key).to_owned(), face: *face })
        .collect()
}

#[test]
fn a_scroll_request_reaches_a_column_before_a_pane() {
    let scroll = |anchor_y| Kind::Scroll { anchor_x: ScrollAnchor::Start, anchor_y };
    let root = container(None, vec![node(Some(1), scroll(ScrollAnchor::End), vec![])]);
    let mut view = ViewTree::new(root);
    view.stale = false;
    assert!(matches!(view.scroll_command(&[1], ScrollRequest::End), Effect::Nothing));
    assert!(!view.stale);
    view.scrolls.insert(vec![1], 10);
    assert!(matches!(
        view.scroll_command(&[1], ScrollRequest::By),
        Effect::ScrollPane {
            scroll: 10,
            request: ScrollRequest::By,
            x: Sense::FromStart,
            y: Sense::FromEnd,
        }
    ));
    assert!(view.stale);
    assert!(matches!(view.scroll_command(&[1], ScrollRequest::Key(4)), Effect::Nothing));
    let drawn = rows(&[("a/@row:41", 0), ("a/@row:4", 0)]);
    view.virtual_scroll(&[1], drawn, ScrollAnchor::Keep, false, None, 11);
    assert!(matches!(
        view.scroll_command(&[1], ScrollRequest::Key(4)),
        Effect::Reveal { list: 11, row: Some(1) }
    ));
    assert!(matches!(
        view.scroll_command(&[1], ScrollRequest::Key(1)),
        Effect::Reveal { list: 11, row: None }
    ));
    let snap = WidgetCommand::Snap { target: vec![1] };
    assert!(matches!(
        view.execute_widget_command(snap, Ok(()), &[], 0),
        Ok(Effect::ScrollList {
            list: 11,
            request: ScrollRequest::Relative,
            sense: Sense::FromStart,
        })
    ));
    let end = WidgetCommand::SnapEnd { target: vec![7] };
    assert!(matches!(
        view.execute_widget_command(end, Ok(()), &[], 0),
        Ok(Effect::Nothing)
    ));
}

#[test]
fn a_column_splices_only_what_changed() {
    let mut view = mounted();
    let made = view.virtual_scroll(
        &[1],
        rows(&[("a", 0), ("b", 0), ("c", 0)]),
        ScrollAnchor::End,
        true,
        None,
        11,
    );
    assert_eq!((made.list, made.made), (11, Some(Alignment::Bottom)));
    assert_eq!(made.change, Change::Reset { count: 3 });
    assert!(made.remeasure.is_empty() && made.follow);
    let next = view.virtual_scroll(
        &[1],
        rows(&[("a", 1), ("x", 0), ("y", 0), ("c", 2)]),
        ScrollAnchor::Start,
        false,
        None,
        12,
    );
    assert_eq!((next.list, next.made), (11, None));
    assert_eq!(next.change, Change::Splice { from: 1, to: 2, count: 2 });
    assert_eq!(next.remeasure, vec![0, 3]);
    let same = view.virtual_scroll(
        &[1],
        rows(&[("a", 1), ("x", 0), ("y", 0), ("c", 2)]),
        ScrollAnchor::Start,
        false,
        None,
        12,
    );
    assert_eq!(same.change, Change::Nothing);
    assert!(same.remeasure.is_empty());
    let none = view.virtual_scroll(&[1], vec![], ScrollAnchor::Start, false, None, 12);
    assert_eq!(none.change, Change::Splice { from: 0, to: 4, count: 0 });
}

#[test]
fn a_column_is_estimated_again_only_at_another_width() {
    let mut view = mounted();
    assert_eq!(view.measured(&[1], 300, None), None, "no column there");
    view.virtual_scroll(&[1], rows(&[("a", 0)]), ScrollAnchor::Start, false, None, 11);
    view.stale = false;
    let first = Remeasured { list: 11, estimate: Estimate::FirstRow, restored: Some(9) };
    assert_eq!(view.measured(&[1], 300, Some(9)), Some(first));
    assert!(view.stale);
    view.stale = false;
    assert_eq!(view.measured(&[1], 300, Some(9)), None);
    assert!(!view.stale);
    // another frame at the same width leaves what was measured
    view.virtual_scroll(&[1], vec![], ScrollAnchor::Start, false, None, 12);
    assert_eq!(view.measured(&[1], 300, None), None);
    let wider = Remeasured { list: 11, estimate: Estimate::Usual, restored: None };
    assert_eq!(view.measured(&[1], 400, None), Some(wider));
}

#[test]
fn a_column_tells_its_handler_from_its_own_end() {
    let mut view = mounted();
    assert_eq!(view.column_scrolled(&[1], Some(3)), None, "no column there");
    for (anchor, sense) in [
        (ScrollAnchor::End, Sense::FromEnd),
        (ScrollAnchor::Start, Sense::FromStart),
        (ScrollAnchor::Keep, Sense::FromStart),
    ] {
        view.virtual_scroll(&[1], rows(&[("a", 0)]), anchor, false, None, 11);
        assert_eq!(view.column_scrolled(&[1], Some(3)), Some((3, sense)));
        assert_eq!(view.column_scrolled(&[1], None), None);
    }
}

#[test]
fn a_pane_is_recorded_and_tells_of_its_moves() {
    let mut view = mounted();
    view.stale = false;
    assert_eq!(view.placed(&[1], 0, 0, 50, Some(3)), Some(3), "the first time");
    assert!(!view.stale);
    let recorded = view.scroll_positions.get(&vec![1]).copied();
    assert_eq!(recorded, Some(Position { offset: 0, maximum: 50 }));
    assert_eq!(view.placed(&[1], 0, 0, 50, Some(3)), None);
    assert_eq!(view.placed(&[1], 0, 0, 60, Some(3)), Some(3), "it can go further");
    assert!(!view.stale);
    assert_eq!(view.placed(&[1], 0, 60, 60, Some(3)), Some(3), "it was moved");
    assert!(view.stale);
    assert_eq!(view.placed(&[1], 60, 60, 60, None), None);
}

fn presentation(rows: Option<Vec<String>>) -> ScrollPresentation {
    ScrollPresentation {
        direction: ScrollDirection::Vertical,
        anchors: (ScrollAnchor::Start, ScrollAnchor::End),
        rows,
        offset: 99,
    }
}

fn scroll_node(direction: ScrollDirection) -> ScrollNode {
    ScrollNode {
        direction,
        anchor_x: ScrollAnchor::Start,
        anchor_y: ScrollAnchor::End,
        auto_scroll: false,
        bar_hidden: false,
    }
}

#[test]
fn a_scroller_takes_up_what_one_like_it_put_away() {
    let mut view = mounted();
    view.authored_path = vec![1, 2];
    view.presentation.scrolls.insert(vec![1, 2], presentation(Some(vec!["a".to_owned()])));
    let drawn = view.scroll(
        scroll_node(ScrollDirection::Vertical),
        Some(rows(&[("a", 0)])),
        21,
    );
    let Scroller::Column(plan) = drawn else {
        panic!("a column");
    };
    assert_eq!(plan.restored, Some(99));
    assert!(!view.presentation.scrolls.contains_key(&vec![1, 2]));
    view.presentation.scrolls.insert(vec![1, 2], presentation(None));
    let drawn = view.scroll(scroll_node(ScrollDirection::Both), Some(rows(&[("a", 0)])), 22);
    assert!(matches!(
        drawn,
        Scroller::Pane { scroll: 22, bar: Bar::FramedBoth, saved: None }
    ));
    view.presentation.scrolls.insert(vec![1, 2], presentation(None));
    let drawn = view.scroll(scroll_node(ScrollDirection::Vertical), None, 23);
    assert!(matches!(
        drawn,
        Scroller::Pane { scroll: 22, bar: Bar::Inside, saved: Some(_) }
    ));
    let across = view.scroll(scroll_node(ScrollDirection::Horizontal), None, 0);
    assert!(matches!(across, Scroller::Pane { bar: Bar::FramedAcross, .. }));
    let hidden = ScrollNode { bar_hidden: true, ..scroll_node(ScrollDirection::Both) };
    assert!(matches!(
        view.scroll(hidden, None, 0),
        Scroller::Pane { bar: Bar::Hidden, .. }
    ));
}

#[test]
fn a_pane_starts_follows_keeps_and_restores() {
    let node = scroll_node(ScrollDirection::Both);
    assert_eq!(settle(None, node, &None), (Move::Stay, Move::ToEnd));
    assert_eq!(
        settle(None, node, &Some(presentation(None))),
        (Move::Restore, Move::Restore)
    );
    assert_eq!(
        settle(None, node, &Some(presentation(Some(vec![])))),
        (Move::Stay, Move::ToEnd)
    );
    let end = Stood { at_end: true, scrolled: true };
    let middle = Stood { at_end: false, scrolled: true };
    let start = Stood { at_end: false, scrolled: false };
    assert_eq!(settle(Some((end, end)), node, &None), (Move::Stay, Move::Stay));
    let follows = ScrollNode { auto_scroll: true, ..node };
    assert_eq!(settle(Some((end, middle)), follows, &None), (Move::ToEnd, Move::Stay));
    let keeps = ScrollNode { anchor_x: ScrollAnchor::Keep, anchor_y: ScrollAnchor::Keep, ..node };
    assert_eq!(settle(Some((middle, start)), keeps, &None), (Move::Keep, Move::Stay));
    assert_eq!(report(false, false, Some(3)), Some(3));
    assert_eq!(report(true, true, Some(3)), Some(3));
    assert_eq!(report(true, false, Some(3)), None);
    assert_eq!(report(true, true, None), None);
}

#[test]
fn no_content_has_rows_and_rows_are_wrapped_one_by_one() {
    assert!(virtual_rows(&tree()).is_none());
    assert!(virtual_rows(&container(Some(1), vec![tree()])).is_none());
    let row = |key: &str, id| DrawnRow {
        key: key.to_owned(),
        content: node(Some(id), Kind::Input, vec![]),
        gap: 4,
        estimated_height: 44,
    };
    let wrapped = wrap_virtual_rows(&container(Some(9), vec![tree()]), vec![row("a", 1), row("b", 2)]);
    assert_eq!(wrapped.len(), 2);
    assert_eq!((wrapped[1].key.as_str(), wrapped[1].gap), ("b", 4));
    assert_eq!(wrapped[1].content.id, Some(9));
    assert_eq!(wrapped[1].content.children.len(), 1);
    assert_eq!(wrapped[1].content.children[0].id, Some(2));
}

#[test]
fn what_is_kept_stays_where_its_node_stays() {
    let mut view = mounted();
    view.bounds.insert(vec![1, 2], 1);
    view.bounds.insert(vec![1, 5], 2);
    view.focus_targets.insert(vec![1, 2], 20);
    view.editors.insert(vec![1, 2, 3], 30);
    view.pickers.insert(vec![1, 5], 50);
    view.fields.insert(vec![1, 4], 40);
    view.scrolls.insert(vec![1, 2], 21);
    view.uniform_lists.insert(vec![8], 80);
    view.uniform_rows.insert(vec![8], vec![1, 2]);
    view.variable_lists.insert(VariableListKey { path: vec![9], state: 1 }, 90);
    view.guest_focus_targets.insert(6, 60);
    view.guest_focus_targets.insert(7, 70);
    let root = container(
        Some(1),
        vec![
            node(
                Some(2),
                Kind::Container { scrolls: true, focus: Some(6) },
                vec![node(Some(3), Kind::Input, vec![])],
            ),
            node(
                None,
                Kind::UniformList { path: vec![8], focus: None },
                vec![node(None, Kind::List { path: vec![9], state: 2 }, vec![])],
            ),
        ],
    );
    let brought = view.replace(root);
    assert!(brought.is_empty() && view.stale);
    assert_eq!(view.bounds.get(&vec![1, 2]), Some(&1));
    assert!(!view.bounds.contains_key(&vec![1, 5]));
    assert!(view.focus_targets.contains_key(&vec![1, 2]));
    assert!(view.scrolls.contains_key(&vec![1, 2]));
    assert!(!view.editors.contains_key(&vec![1, 2, 3]), "an input stands there now");
    assert!(!view.pickers.contains_key(&vec![1, 5]));
    assert!(!view.fields.contains_key(&vec![1, 4]));
    assert!(view.uniform_lists.contains_key(&vec![8]));
    assert!(!view.uniform_rows.contains_key(&vec![8]));
    assert!(!view.variable_lists.contains_key(&VariableListKey { path: vec![9], state: 1 }));
    assert!(view.guest_focus_targets.contains_key(&6));
    assert!(!view.guest_focus_targets.contains_key(&7));
}

#[test]
fn pictures_come_along_once() {
    let mut view = mounted();
    let root = container(
        None,
        vec![
            node(None, Kind::Image { focus: None, hash: 1, fresh: true }, vec![]),
            node(None, Kind::Image { focus: None, hash: 2, fresh: false }, vec![]),
            node(None, Kind::Svg { focus: None, data: Some((3, true)) }, vec![]),
            node(None, Kind::Svg { focus: None, data: None }, vec![]),
            node(None, Kind::ImageViewer { hash: 4, fresh: true }, vec![]),
        ],
    );
    assert_eq!(
        view.replace(root),
        vec![Picture::Image(1), Picture::Vector(3), Picture::Image(4)]
    );
}

#[test]
fn svg_uses_native_element_and_retains_data_without_resent_bytes() {
    let svg = |fresh| node(Some(1), Kind::Svg { focus: None, data: Some((42, fresh)) }, vec![]);
    let mut view = ViewTree::new(container(None, vec![]));
    assert_eq!(view.replace(svg(true)), vec![Picture::Vector(42)]);
    assert_eq!(view.replace(svg(false)), vec![], "nothing to keep anew");
}

#[test]
fn a_sensor_keeps_its_measure_until_it_is_reset() {
    let sensor = |reset| {
        container(
            Some(1),
            vec![node(
                Some(2),
                Kind::Sensor { reset, on_show: Some(8), on_resize: None, on_hide: None },
                vec![],
            )],
        )
    };
    let mut view = ViewTree::new(sensor(5));
    let known = Sensor {
        reset: 5,
        size: Some(100),
        pending: Some(101),
        on_show: None,
        on_resize: Some(1),
        on_hide: None,
    };
    view.sensors.insert(vec![1, 2], known);
    view.replace(sensor(5));
    assert_eq!(
        view.sensors.get(&vec![1, 2]),
        Some(&Sensor { on_show: Some(8), on_resize: None, ..known })
    );
    view.replace(sensor(6));
    assert_eq!(
        view.sensors.get(&vec![1, 2]),
        Some(&Sensor {
            reset: 6,
            size: None,
            pending: None,
            on_show: Some(8),
            on_resize: None,
            on_hide: None,
        })
    );
    view.replace(tree());
    assert!(!view.sensors.contains_key(&vec![1, 2]));
}

#[test]
fn a_container_is_known_labelled_tracked_and_scrolled() {
    let mut view = mounted();
    view.authored_path = vec![1, 2];
    view.presentation.focused_container = Some(vec![1, 2]);
    let fresh = Fresh { guest_focus: 60, focus: 20, scroll: 21 };
    let drawn = || ContainerNode {
        id: Some(2),
        role: true,
        label: None,
        text: Some("inside".to_owned()),
        focus: Some(6),
        scrolls: true,
    };
    let plan = view.container(drawn(), fresh);
    assert_eq!(plan.id, NativeId::Own(2));
    assert_eq!(plan.label.as_deref(), Some("inside"));
    assert_eq!(plan.guest_focus, Some(60));
    assert!(plan.take_focus && plan.measured);
    assert_eq!((plan.track, plan.scroll), (Some(20), Some(21)));
    let other = Fresh { guest_focus: 0, focus: 0, scroll: 0 };
    let again = view.container(
        ContainerNode { role: false, focus: None, scrolls: false, ..drawn() },
        other,
    );
    assert_eq!(again.label, None, "no role, no label");
    assert!(!again.take_focus);
    assert_eq!((again.guest_focus, again.track, again.scroll), (None, Some(20), None));
    assert_eq!(view.render_index, 0);
    view.authored_path = vec![];
    let bare = view.container(
        ContainerNode { id: None, label: Some("own".to_owned()), ..drawn() },
        other,
    );
    assert_eq!(bare.id, NativeId::Nth(0));
    assert_eq!(view.render_index, 1);
    assert_eq!(bare.label.as_deref(), Some("own"));
    assert!(!bare.measured && !bare.take_focus);
    assert_eq!((bare.guest_focus, bare.track, bare.scroll), (Some(60), None, None));
}

#[test]
fn a_scrolling_container_keeps_its_handle_at_its_own_id() {
    let list = |id| node(id, Kind::Container { scrolls: true, focus: None }, vec![]);
    let banner = || container(Some(9), vec![]);
    let mut view = ViewTree::new(container(Some(1), vec![list(Some(2))]));
    let drawn = |id| ContainerNode {
        id,
        role: false,
        label: None,
        text: None,
        focus: None,
        scrolls: true,
    };
    let fresh = |scroll| Fresh { guest_focus: 0, focus: 0, scroll };
    view.authored_path = vec![1, 2];
    assert_eq!(view.container(drawn(Some(2)), fresh(21)).scroll, Some(21));
    view.replace(container(Some(1), vec![banner(), list(Some(2))]));
    assert_eq!(view.container(drawn(Some(2)), fresh(22)).scroll, Some(21));
    view.replace(container(Some(1), vec![banner()]));
    assert!(
        !view.scrolls.contains_key(&vec![1, 2]),
        "a removed scroller's handle is dropped"
    );
    view.replace(container(Some(1), vec![list(None), list(None)]));
    view.authored_path = vec![1];
    assert_eq!(view.container(drawn(None), fresh(23)).scroll, None);
    assert_eq!(view.container(drawn(None), fresh(24)).scroll, None);
    assert!(
        !view.scrolls.contains_key(&vec![1]),
        "id-less scrollers share no handle"
    );
}

#[test]
fn container_focus_is_native_and_handoff_never_reuses_retired_handles() {
    let menu = || container(Some(1), vec![]);
    let mut view = ViewTree::new(menu());
    let focus = WidgetCommand::Focus { target: vec![1] };
    let effect = view.execute_widget_command(focus, Ok(()), &[], 70);
    assert!(matches!(effect, Ok(Effect::Focus { handle: 70 })));
    assert!(view.target_focused(&[1], &[70]));
    // handed over to a view that takes up where this one was put away
    let mut next = ViewTree::new(menu());
    next.presentation.focused_container = Some(vec![1]);
    next.authored_path = vec![1];
    let drawn = ContainerNode {
        id: Some(1),
        role: false,
        label: None,
        text: None,
        focus: None,
        scrolls: false,
    };
    let plan = next.container(drawn, Fresh { guest_focus: 0, focus: 71, scroll: 0 });
    assert!(plan.take_focus);
    assert_eq!(plan.track, Some(71), "handoff uses a fresh native handle");
    assert!(next.target_focused(&[1], &[71]));
    assert!(!next.target_focused(&[1], &[70]));
    next.replace(node(Some(2), Kind::Plain, vec![]));
    assert!(!next.focus_targets.contains_key(&vec![1]));
    assert!(!next.target_focused(&[1], &[71]));
}

#[test]
fn a_click_is_claimed_once_by_its_own_handler() {
    let mut view = mounted();
    view.clicked(4);
    assert_eq!(view.take_user_activation(Event::Message(5)), None);
    assert_eq!(view.take_user_activation(Event::Other), None);
    assert_eq!(view.take_user_activation(Event::Click { handler: 4 }), Some(()));
    assert_eq!(view.take_user_activation(Event::Select { handler: 4 }), None);
    view.clicked(4);
    assert_eq!(view.take_user_activation(Event::AuxClick { handler: 4 }), Some(()));
}

#[test]
fn a_measure_is_news_only_when_it_changed() {
    let mut view = mounted();
    view.stale = false;
    view.measure(&[1], 10);
    assert!(view.stale);
    view.stale = false;
    view.measure(&[1], 10);
    assert!(!view.stale);
    view.authored_path = vec![1];
    view.responsive(5);
    assert!(view.stale);
    view.stale = false;
    view.responsive(5);
    assert!(!view.stale);
    assert!(dialog_entry(true, Some(1), Some(1)));
    assert!(!dialog_entry(true, Some(1), Some(2)));
    assert!(!dialog_entry(false, None, None));
}

#[test]
fn a_new_store_takes_editors_made_anew() {
    let mut view = mounted();
    view.editors.insert(vec![1, 2, 3], 30);
    view.stale = false;
    view.set_editor_store(8);
    assert!(!view.editors.contains_key(&vec![1, 2, 3]));
    assert_eq!(view.editor_store, Some(8));
    assert!(view.stale);
}

#[test]
fn keyed_values_are_found_replaced_and_dropped() {
    let mut kept: Keyed<u64, char> = Keyed::new();
    kept.insert(1, 'a');
    kept.insert(2, 'b');
    kept.insert(1, 'c');
    assert_eq!(kept.get(&1), Some(&'c'));
    assert_eq!(kept.remove(&2), Some('b'));
    assert_eq!(kept.remove(&2), None);
    kept.insert(3, 'd');
    let mut keys = KeySet::new();
    keys.insert(3);
    keys.insert(4);
    kept.retain(&keys);
    assert!(!kept.contains_key(&1) && kept.contains_key(&3) && !kept.contains_key(&4));
    kept.clear();
    assert!(!kept.contains_key(&3));
}
