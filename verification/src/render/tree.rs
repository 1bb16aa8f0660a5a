//! The tree a guest draws, as far as the host reasons about it, and the walk
//! that names every node in it.

use vstd::prelude::*;

use crate::render::keyed::AuthoredPath;
use crate::render::keyed::Key;
use crate::render::keyed::KeySet;
use crate::render::keyed::path_of;

verus! {

/// Which end a scroller measures from, and starts at.
#[derive(Clone, Copy, Debug, PartialEq, Eq, Structural)]
pub enum ScrollAnchor {
    Start,
    End,
    Keep,
}

/// The axes a scroller scrolls on.
#[derive(Clone, Copy, Debug, PartialEq, Eq, Structural)]
pub enum ScrollDirection {
    Vertical,
    Horizontal,
    Both,
}

/// What a node is, as far as the host keeps state for it.
#[derive(Debug)]
pub enum Kind {
    /// A container, which may scroll its overflow and may name a focus handle
    /// of the guest's.
    Container { scrolls: bool, focus: Option<u64> },
    /// A picture; `fresh` when its bytes ride along.
    Image { focus: Option<u64>, hash: u64, fresh: bool },
    /// A picture the person can pan and zoom.
    ImageViewer { hash: u64, fresh: bool },
    /// A drawing; its bytes' hash when it is drawn from bytes.
    Svg { focus: Option<u64>, data: Option<(u64, bool)> },
    UniformList { path: AuthoredPath, focus: Option<u64> },
    List { path: AuthoredPath, state: u64 },
    Input,
    Scroll { anchor_x: ScrollAnchor, anchor_y: ScrollAnchor },
    PickList,
    ComboBox,
    ResizeHandle,
    /// A layer over the rest; `named` when it reads as a dialog.
    Overlay { named: bool },
    Responsive,
    Sensor { reset: u64, on_show: Option<u32>, on_resize: Option<u32>, on_hide: Option<u32> },
    Slider,
    Surface,
    Editor,
    /// Anything the host keeps nothing for.
    Plain,
}

/// One node: its id where it has one, what it is, and what stands in it.
#[derive(Debug)]
pub struct Node {
    pub id: Option<u64>,
    pub kind: Kind,
    pub children: Vec<Node>,
}

// ---------- the walk ----------
/// The path of a node found under `path`: its own id on the end, when it has
/// one. A node without one stands at the path above it.
pub open spec fn entered(node: Node, path: Seq<u64>) -> Seq<u64> {
    match node.id {
        Some(id) => path.push(id),
        None => path,
    }
}

/// Every node of the tree under `node`, each with its path, parents before
/// children and siblings in order.
pub open spec fn visits(node: Node, path: Seq<u64>) -> Seq<(Node, Seq<u64>)>
    decreases node,
{
    seq![(node, entered(node, path))] + visits_of_all(node.children@, entered(node, path))
}

pub open spec fn visits_of_all(nodes: Seq<Node>, path: Seq<u64>) -> Seq<(Node, Seq<u64>)>
    decreases nodes,
{
    if nodes.len() == 0 {
        Seq::empty()
    } else {
        visits_of_all(nodes.drop_last(), path) + visits(nodes.last(), path)
    }
}

/// A node and where it stands.
pub struct Visit<'a> {
    pub node: &'a Node,
    pub path: AuthoredPath,
}

/// The nodes and paths of `walked`.
pub open spec fn seen(walked: Seq<Visit>) -> Seq<(Node, Seq<u64>)> {
    walked.map_values(|visit: Visit| (*visit.node, visit.path@))
}

fn walk_into<'a>(node: &'a Node, path: &mut AuthoredPath, walked: &mut Vec<Visit<'a>>)
    ensures
        final(path)@ == old(path)@,
        seen(final(walked)@) == seen(old(walked)@) + visits(*node, old(path)@),
    decreases node,
{
    let ghost above = path@;
    if let Some(id) = node.id {
        path.push(id);
    }
    let ghost here = path@;
    assert(here == entered(*node, above));
    let copy = path_of(path.as_slice());
    walked.push(Visit { node, path: copy });
    assert(seen(walked@) =~= seen(old(walked)@) + seq![(*node, here)]);
    let mut nth: usize = 0;
    while nth < node.children.len()
        invariant
            nth <= node.children@.len(),
            path@ == here,
            seen(walked@) == seen(old(walked)@) + seq![(*node, here)] + visits_of_all(
                node.children@.take(nth as int),
                here,
            ),
        decreases node.children@.len() - nth,
    {
        let ghost before = seen(walked@);
        walk_into(&node.children[nth], path, walked);
        assert(node.children@.take(nth + 1).drop_last() =~= node.children@.take(nth as int));
        assert(seen(walked@) =~= seen(old(walked)@) + seq![(*node, here)] + visits_of_all(
            node.children@.take(nth + 1),
            here,
        ));
        nth += 1;
    }
    assert(node.children@.take(nth as int) =~= node.children@);
    assert(seen(walked@) =~= seen(old(walked)@) + visits(*node, above));
    if node.id.is_some() {
        let _ = path.pop();
        assert(path@ =~= above);
    }
}

/// The tree under `root`, walked.
pub fn walk_authored_paths<'a>(root: &'a Node) -> (walked: Vec<Visit<'a>>)
    ensures
        seen(walked@) == visits(*root, Seq::empty()),
{
    let mut walked: Vec<Visit<'a>> = Vec::new();
    let mut path: AuthoredPath = Vec::new();
    walk_into(root, &mut path, &mut walked);
    assert(seen(walked@) =~= visits(*root, Seq::empty()));
    walked
}

// ---------- who keeps what ----------
/// What the host keeps state for, by path.
#[derive(Clone, Copy, Debug, PartialEq, Eq, Structural)]
pub enum Role {
    /// Any node at all: its measured bounds.
    Mounted,
    /// A scroller: a scroll node, or a container with an id that scrolls. An
    /// id-less container has no path of its own to keep a handle at.
    Scroller,
    /// A container with an id, which a command can focus.
    Focusable,
    Field,
    Picker,
    Drag,
    Dialog,
    Responsive,
    /// A slider, a surface, an editor or an image viewer.
    Retained,
    Sensor,
}

/// Whether `node` is what `role` says.
pub open spec fn plays(node: Node, role: Role) -> bool {
    match role {
        Role::Mounted => true,
        Role::Scroller => {
            ||| node.kind is Scroll
            ||| node.kind is Container && node.kind->scrolls && node.id is Some
        },
        Role::Focusable => node.kind is Container && node.id is Some,
        Role::Field => node.kind is Input,
        Role::Picker => node.kind is PickList || node.kind is ComboBox,
        Role::Drag => node.kind is ResizeHandle,
        Role::Dialog => node.kind is Overlay && node.kind->named,
        Role::Responsive => node.kind is Responsive,
        Role::Retained => node.kind is Slider || node.kind is Surface || node.kind is Editor
            || node.kind is ImageViewer,
        Role::Sensor => node.kind is Sensor,
    }
}

impl Node {
    /// Whether this node is what `role` says.
    pub fn is(&self, role: Role) -> (yes: bool)
        ensures
            yes == plays(*self, role),
    {
        match role {
            Role::Mounted => true,
            Role::Scroller => match &self.kind {
                Kind::Scroll { .. } => true,
                Kind::Container { scrolls, .. } => *scrolls && self.id.is_some(),
                _ => false,
            },
            Role::Focusable => matches!(&self.kind, Kind::Container { .. }) && self.id.is_some(),
            Role::Field => matches!(&self.kind, Kind::Input),
            Role::Picker => matches!(&self.kind, Kind::PickList | Kind::ComboBox),
            Role::Drag => matches!(&self.kind, Kind::ResizeHandle),
            Role::Dialog => match &self.kind {
                Kind::Overlay { named } => *named,
                _ => false,
            },
            Role::Responsive => matches!(&self.kind, Kind::Responsive),
            Role::Retained => matches!(
                &self.kind,
                Kind::Slider | Kind::Surface | Kind::Editor | Kind::ImageViewer { .. }
            ),
            Role::Sensor => matches!(&self.kind, Kind::Sensor { .. }),
        }
    }

    /// The guest's focus handle this node names.
    pub fn focus(&self) -> (id: Option<u64>)
        ensures
            id == named_focus(*self),
    {
        match &self.kind {
            Kind::Container { focus, .. } => *focus,
            Kind::Image { focus, .. } => *focus,
            Kind::Svg { focus, .. } => *focus,
            Kind::UniformList { focus, .. } => *focus,
            _ => None,
        }
    }
}

/// The guest's focus handle `node` names.
pub open spec fn named_focus(node: Node) -> Option<u64> {
    match node.kind {
        Kind::Container { focus, .. } => focus,
        Kind::Image { focus, .. } => focus,
        Kind::Svg { focus, .. } => focus,
        Kind::UniformList { focus, .. } => focus,
        _ => None,
    }
}

/// Where a node that plays `role` stands in the tree under `root`.
pub open spec fn stands(root: Node, role: Role, path: Seq<u64>) -> bool {
    exists|i: int|
        0 <= i < visits(root, Seq::empty()).len() && (#[trigger] visits(root, Seq::empty())[i]).1 == path
            && plays(visits(root, Seq::empty())[i].0, role)
}

/// The paths at which nodes of `root` play `role`.
pub open spec fn census(root: Node, role: Role) -> Set<Seq<u64>> {
    Set::new(|path: Seq<u64>| stands(root, role, path))
}

/// The guest's focus handles the tree under `root` names.
pub open spec fn named_focuses(root: Node) -> Set<u64> {
    Set::new(
        |id: u64|
            exists|i: int|
                0 <= i < visits(root, Seq::empty()).len() && named_focus(
                    (#[trigger] visits(root, Seq::empty())[i]).0,
                ) == Some(id),
    )
}

/// The names of the uniform lists in the tree under `root`.
pub open spec fn uniform_list_paths(root: Node) -> Set<Seq<u64>> {
    Set::new(
        |path: Seq<u64>|
            exists|i: int|
                0 <= i < visits(root, Seq::empty()).len() && ((
                #[trigger] visits(root, Seq::empty())[i]).0.kind matches Kind::UniformList {
                    path: own,
                    ..
                } && own@ == path),
    )
}

/// A list of rows of their own heights: its path, and the guest's state of it.
#[derive(Debug)]
pub struct VariableListKey {
    pub path: AuthoredPath,
    pub state: u64,
}

impl View for VariableListKey {
    type V = (Seq<u64>, u64);

    open spec fn view(&self) -> (Seq<u64>, u64) {
        (self.path@, self.state)
    }
}

impl Key for VariableListKey {
    fn same(&self, other: &Self) -> (same: bool) {
        self.state == other.state && crate::render::keyed::same_path(
            self.path.as_slice(),
            other.path.as_slice(),
        )
    }
}

/// The lists of rows of their own heights in the tree under `root`.
pub open spec fn variable_list_keys(root: Node) -> Set<(Seq<u64>, u64)> {
    Set::new(
        |key: (Seq<u64>, u64)|
            exists|i: int|
                0 <= i < visits(root, Seq::empty()).len() && ((
                #[trigger] visits(root, Seq::empty())[i]).0.kind matches Kind::List {
                    path: own,
                    state,
                } && (own@, state) == key),
    )
}

/// The paths at which `walked` nodes play `role`.
pub fn count(root: &Node, walked: &Vec<Visit>, role: Role) -> (paths: KeySet<AuthoredPath>)
    requires
        seen(walked@) == visits(*root, Seq::empty()),
    ensures
        paths@ == census(*root, role),
{
    let mut paths: KeySet<AuthoredPath> = KeySet::new();
    let ghost all = visits(*root, Seq::empty());
    let mut nth: usize = 0;
    while nth < walked.len()
        invariant
            seen(walked@) == all,
            nth <= walked@.len(),
            forall|path: Seq<u64>|
                #[trigger] paths@.contains(path) <==> exists|i: int|
                    0 <= i < nth && (#[trigger] all[i]).1 == path && plays(all[i].0, role),
        decreases walked@.len() - nth,
    {
        let visit = &walked[nth];
        let ghost before = paths@;
        assert(all[nth as int] == (*visit.node, visit.path@));
        let counted = visit.node.is(role);
        if counted {
            paths.insert(path_of(visit.path.as_slice()));
        }
        assert forall|path: Seq<u64>| #[trigger] paths@.contains(path) <==> exists|i: int|
            0 <= i < nth + 1 && (#[trigger] all[i]).1 == path && plays(all[i].0, role) by {
            if before.contains(path) {
                let i = choose|i: int|
                    0 <= i < nth && (#[trigger] all[i]).1 == path && plays(all[i].0, role);
                assert(0 <= i < nth + 1 && all[i].1 == path && plays(all[i].0, role));
            }
            if exists|i: int|
                0 <= i < nth + 1 && (#[trigger] all[i]).1 == path && plays(all[i].0, role) {
                let i = choose|i: int|
                    0 <= i < nth + 1 && (#[trigger] all[i]).1 == path && plays(all[i].0, role);
                if i < nth {
                    assert(0 <= i < nth && all[i].1 == path && plays(all[i].0, role));
                    assert(before.contains(path));
                }
            }
            if counted && path == visit.path@ {
                assert(all[nth as int].1 == path && plays(all[nth as int].0, role));
            }
        }
        nth += 1;
    }
    assert(paths@ =~= census(*root, role)) by {
        assert forall|path: Seq<u64>| #[trigger] paths@.contains(path) <==> census(
            *root,
            role,
        ).contains(path) by {
            if paths@.contains(path) {
                let i = choose|i: int|
                    0 <= i < nth && (#[trigger] all[i]).1 == path && plays(all[i].0, role);
                assert(stands(*root, role, path));
            }
            if stands(*root, role, path) {
                let i = choose|i: int|
                    0 <= i < all.len() && (#[trigger] all[i]).1 == path && plays(all[i].0, role);
                assert(all[i].1 == path);
            }
        }
    }
    paths
}

// ---------- where every node stands ----------
/// The node reached from `root` by going down to a child again and again,
/// `address` saying to which one each time.
pub open spec fn node_at(root: Node, address: Seq<int>) -> Option<Node>
    decreases address.len(),
{
    if address.len() == 0 {
        Some(root)
    } else if 0 <= address[0] < root.children@.len() {
        node_at(root.children@[address[0]], address.skip(1))
    } else {
        None
    }
}

/// The ids on the way from `root` down `address`, both ends among them.
pub open spec fn ids_down(root: Node, address: Seq<int>) -> Seq<u64>
    decreases address.len(),
{
    (match root.id {
        Some(id) => seq![id],
        None => Seq::empty(),
    }) + if address.len() == 0 || !(0 <= address[0] < root.children@.len()) {
        Seq::empty()
    } else {
        ids_down(root.children@[address[0]], address.skip(1))
    }
}

proof fn visited_among(nodes: Seq<Node>, path: Seq<u64>, child: int, nth: int) -> (place: int)
    requires
        0 <= child < nodes.len(),
        0 <= nth < visits(nodes[child], path).len(),
    ensures
        0 <= place < visits_of_all(nodes, path).len(),
        visits_of_all(nodes, path)[place] == visits(nodes[child], path)[nth],
    decreases nodes.len(),
{
    let before = visits_of_all(nodes.drop_last(), path);
    if child == nodes.len() - 1 {
        before.len() + nth
    } else {
        assert(nodes.drop_last()[child] == nodes[child]);
        visited_among(nodes.drop_last(), path, child, nth)
    }
}

/// Every node of a tree is visited, at the ids on the way down to it.
pub proof fn every_node_is_visited(root: Node, path: Seq<u64>, address: Seq<int>) -> (nth: int)
    requires
        node_at(root, address) is Some,
    ensures
        0 <= nth < visits(root, path).len(),
        visits(root, path)[nth] == (node_at(root, address)->0, path + ids_down(root, address)),
    decreases address.len(),
{
    let here = entered(root, path);
    assert(here =~= path + (match root.id {
        Some(id) => seq![id],
        None => Seq::empty(),
    }));
    if address.len() == 0 {
        assert(path + ids_down(root, address) =~= here);
        0
    } else {
        let child = root.children@[address[0]];
        let below = every_node_is_visited(child, here, address.skip(1));
        let place = visited_among(root.children@, here, address[0], below);
        assert(path + ids_down(root, address) =~= here + ids_down(child, address.skip(1)));
        1 + place
    }
}

/// Every visit is of a node of the tree, at the ids on the way down to it.
pub proof fn every_visit_is_of_a_node(root: Node, path: Seq<u64>, nth: int) -> (address: Seq<int>)
    requires
        0 <= nth < visits(root, path).len(),
    ensures
        node_at(root, address) is Some,
        visits(root, path)[nth] == (node_at(root, address)->0, path + ids_down(root, address)),
    decreases root,
{
    let here = entered(root, path);
    assert(here =~= path + (match root.id {
        Some(id) => seq![id],
        None => Seq::empty(),
    }));
    if nth == 0 {
        let address = Seq::<int>::empty();
        assert(path + ids_down(root, address) =~= here);
        address
    } else {
        let (child, below) = a_visit_is_of_a_child(root.children@, here, nth - 1);
        let address = seq![child] + below;
        assert(address.skip(1) =~= below);
        assert(address[0] == child);
        assert(path + ids_down(root, address) =~= here + ids_down(root.children@[child], below));
        address
    }
}

proof fn a_visit_is_of_a_child(nodes: Seq<Node>, path: Seq<u64>, nth: int) -> (found: (
    int,
    Seq<int>,
))
    requires
        0 <= nth < visits_of_all(nodes, path).len(),
    ensures
        0 <= found.0 < nodes.len(),
        node_at(nodes[found.0], found.1) is Some,
        visits_of_all(nodes, path)[nth] == (
            node_at(nodes[found.0], found.1)->0,
            path + ids_down(nodes[found.0], found.1),
        ),
    decreases nodes,
{
    let before = visits_of_all(nodes.drop_last(), path);
    if nth < before.len() {
        let found = a_visit_is_of_a_child(nodes.drop_last(), path, nth);
        assert(nodes.drop_last()[found.0] == nodes[found.0]);
        found
    } else {
        let address = every_visit_is_of_a_node(nodes.last(), path, nth - before.len());
        (nodes.len() - 1, address)
    }
}

/// What a node is kept as, by what it is: a path to measure at, whatever it is;
/// a scroller where it is a scroll node, or a container that scrolls under an
/// id; something to focus where it is a container under an id; and each of the
/// rest by its kind alone.
pub proof fn a_node_is_what_its_kind_says(node: &Node, role: Role, yes: bool)
    requires
        call_ensures(Node::is, (node, role), yes),
    ensures
        role is Mounted ==> yes,
        role is Scroller && node.kind is Scroll ==> yes,
        role is Scroller && node.kind is Container ==> (yes <==> node.kind->scrolls && node.id
            is Some),
        role is Scroller && yes ==> node.kind is Scroll || node.kind is Container,
        role is Focusable ==> (yes <==> node.kind is Container && node.id is Some),
        role is Field ==> (yes <==> node.kind is Input),
        role is Picker ==> (yes <==> node.kind is PickList || node.kind is ComboBox),
        role is Drag ==> (yes <==> node.kind is ResizeHandle),
        role is Dialog ==> (yes <==> node.kind is Overlay && node.kind->named),
        role is Responsive ==> (yes <==> node.kind is Responsive),
        role is Retained ==> (yes <==> node.kind is Slider || node.kind is Surface || node.kind
            is Editor || node.kind is ImageViewer),
        role is Sensor ==> (yes <==> node.kind is Sensor),
{
}

/// A handle of the guest's is named by a container, a picture, a drawing or a
/// list of even rows that gives one, and by nothing else.
pub proof fn a_handle_is_named_where_it_is_given(node: &Node, id: Option<u64>)
    requires
        call_ensures(Node::focus, (node,), id),
    ensures
        node.kind matches Kind::Container { focus, .. } ==> id == focus,
        node.kind matches Kind::Image { focus, .. } ==> id == focus,
        node.kind matches Kind::Svg { focus, .. } ==> id == focus,
        node.kind matches Kind::UniformList { focus, .. } ==> id == focus,
        id is Some ==> node.kind is Container || node.kind is Image || node.kind is Svg || node.kind
            is UniformList,
{
}

proof fn child_before_child(
    nodes: Seq<Node>,
    path: Seq<u64>,
    first: int,
    second: int,
    n: int,
    m: int,
) -> (places: (int, int))
    requires
        0 <= first < second < nodes.len(),
        0 <= n < visits(nodes[first], path).len(),
        0 <= m < visits(nodes[second], path).len(),
    ensures
        0 <= places.0 < places.1 < visits_of_all(nodes, path).len(),
        visits_of_all(nodes, path)[places.0] == visits(nodes[first], path)[n],
        visits_of_all(nodes, path)[places.1] == visits(nodes[second], path)[m],
    decreases nodes.len(),
{
    let shorter = nodes.drop_last();
    let before = visits_of_all(shorter, path);
    assert(shorter[first] == nodes[first]);
    if second == nodes.len() - 1 {
        let place = visited_among(shorter, path, first, n);
        (place, before.len() + m)
    } else {
        assert(shorter[second] == nodes[second]);
        child_before_child(shorter, path, first, second, n, m)
    }
}

/// A walk goes down before it goes on: a node comes first, and everything in an
/// earlier child of it before everything in a later one.
pub proof fn the_walk_goes_down_before_it_goes_on(
    root: Node,
    path: Seq<u64>,
    first: int,
    second: int,
    n: int,
    m: int,
) -> (places: (int, int))
    requires
        0 <= first < second < root.children@.len(),
        0 <= n < visits(root.children@[first], entered(root, path)).len(),
        0 <= m < visits(root.children@[second], entered(root, path)).len(),
    ensures
        visits(root, path)[0].0 == root,
        0 < places.0 < places.1 < visits(root, path).len(),
        visits(root, path)[places.0] == visits(root.children@[first], entered(root, path))[n],
        visits(root, path)[places.1] == visits(root.children@[second], entered(root, path))[m],
        root.id matches Some(id) ==> visits(root, path)[0].1 == path.push(id),
        root.id is None ==> visits(root, path)[0].1 == path,
{
    let (a, b) = child_before_child(
        root.children@,
        entered(root, path),
        first,
        second,
        n,
        m,
    );
    (a + 1, b + 1)
}

/// How many nodes stand in a tree.
pub open spec fn how_many(node: Node) -> nat
    decreases node,
{
    1 + how_many_in(node.children@)
}

/// How many nodes stand in the trees under `nodes`.
pub open spec fn how_many_in(nodes: Seq<Node>) -> nat
    decreases nodes,
{
    if nodes.len() == 0 {
        0
    } else {
        how_many_in(nodes.drop_last()) + how_many(nodes.last())
    }
}

/// A walk visits as many nodes as there are, so each of them once.
pub proof fn the_walk_visits_each_node_once(root: Node, path: Seq<u64>)
    ensures
        visits(root, path).len() == how_many(root),
    decreases root,
{
    all_are_visited_once(root.children@, entered(root, path));
}

proof fn all_are_visited_once(nodes: Seq<Node>, path: Seq<u64>)
    ensures
        visits_of_all(nodes, path).len() == how_many_in(nodes),
    decreases nodes,
{
    if nodes.len() > 0 {
        all_are_visited_once(nodes.drop_last(), path);
        the_walk_visits_each_node_once(nodes.last(), path);
    }
}

/// What is counted for a role is the path of every node that plays it, and no
/// other path.
pub proof fn a_role_is_counted_where_it_is_played<'a>(
    root: &Node,
    walked: &Vec<Visit<'a>>,
    role: Role,
    paths: KeySet<AuthoredPath>,
    path: Seq<u64>,
)
    requires
        call_ensures(count, (root, walked, role), paths),
    ensures
        paths@.contains(path) <==> exists|i: int|
            0 <= i < visits(*root, Seq::empty()).len() && (
            #[trigger] visits(*root, Seq::empty())[i]).1 == path && plays(
                visits(*root, Seq::empty())[i].0,
                role,
            ),
{
    assert(census(*root, role).contains(path) <==> stands(*root, role, path));
}

} // verus!
