//! Containers: what one is known by, what it reads as, and the native state
//! it draws with.

use vstd::prelude::*;

use crate::render::keyed::path_of;
use crate::render::keyed::same_path;
use crate::render::view::ViewTree;

verus! {

/// A container, as far as drawing it is a decision.
#[derive(Debug)]
pub struct ContainerNode {
    pub id: Option<u64>,
    /// Whether it has a role for assistive technology.
    pub role: bool,
    /// The name it was given.
    pub label: Option<String>,
    /// The text drawn inside it.
    pub text: Option<String>,
    /// The guest's focus handle it names.
    pub focus: Option<u64>,
    /// Whether its vertical overflow scrolls.
    pub scrolls: bool,
}

/// The native id of a container: its own, or its place among the id-less ones
/// of the frame.
#[derive(Clone, Copy, Debug, PartialEq, Eq, Structural)]
pub enum NativeId {
    Own(u64),
    Nth(u64),
}

/// Native objects for what is drawn for the first time.
#[derive(Clone, Copy, Debug, PartialEq, Eq, Structural)]
pub struct Fresh {
    pub guest_focus: u64,
    pub focus: u64,
    pub scroll: u64,
}

/// How a container is drawn.
#[derive(Debug)]
pub struct ContainerPlan {
    pub id: NativeId,
    /// What it reads as. A container with a role and no name of its own reads
    /// as the text drawn inside it.
    pub label: Option<String>,
    /// The handle that stands for the guest's.
    pub guest_focus: Option<u64>,
    /// Whether focus goes to it now, as it had it when the view was put away.
    pub take_focus: bool,
    /// The handle it tracks focus with.
    pub track: Option<u64>,
    /// Whether its bounds are measured.
    pub measured: bool,
    /// The handle its overflow scrolls by, under a bar. A container without an
    /// id has none: it has no path of its own to keep one at, only its
    /// parent's, which its siblings share.
    pub scroll: Option<u64>,
}

/// What `node` reads as.
pub open spec fn label_of(node: ContainerNode) -> Option<Seq<char>> {
    match node.label {
        Some(label) => Some(label@),
        None => match node.text {
            Some(text) if node.role => Some(text@),
            _ => None,
        },
    }
}

/// Whether the container at the path being drawn is the one that had focus
/// when the view was put away.
pub open spec fn restores_focus(tree: ViewTree) -> bool {
    tree.authored_path@.len() > 0 && (tree.presentation.focused_container matches Some(saved)
        && saved@ == tree.authored_path@)
}

/// Whether a handle is kept for what `node` scrolls by.
pub open spec fn keeps_scroll(tree: ViewTree, node: ContainerNode) -> bool {
    node.scrolls && node.id is Some && tree.authored_path@.len() > 0
}

/// What is kept under `key`, or `fresh`.
pub open spec fn kept_or<K>(map: Map<K, u64>, key: K, fresh: u64) -> u64 {
    if map.dom().contains(key) {
        map[key]
    } else {
        fresh
    }
}

/// Whether drawing `node` at the path being drawn, with `fresh` for what is
/// drawn for the first time, comes to `plan` and leaves the tree as `after`.
pub open spec fn drawn_as(
    before: ViewTree,
    node: ContainerNode,
    fresh: Fresh,
    after: ViewTree,
    plan: ContainerPlan,
) -> bool {
    &&& plan.id == (match node.id {
        Some(id) => NativeId::Own(id),
        None => NativeId::Nth(before.render_index),
    })
    &&& match (plan.label, label_of(node)) {
        (Some(label), Some(text)) => label@ == text,
        (None, None) => true,
        _ => false,
    }
    &&& plan.guest_focus == (match node.focus {
        Some(id) => Some(
            kept_or(before.guest_focus_targets@, id, fresh.guest_focus),
        ),
        None => None,
    })
    &&& plan.take_focus == restores_focus(before)
    &&& plan.track == (if restores_focus(before) {
        Some(
            kept_or(before.focus_targets@, before.authored_path@, fresh.focus),
        )
    } else if before.authored_path@.len() > 0 && before.focus_targets@.dom().contains(before.authored_path@) {
        Some(before.focus_targets@[before.authored_path@])
    } else {
        None
    })
    &&& plan.measured == (before.authored_path@.len() > 0)
    &&& plan.scroll == (if keeps_scroll(before, node) {
        Some(kept_or(before.scrolls@, before.authored_path@, fresh.scroll))
    } else {
        None
    })
    &&& after.guest_focus_targets@ == (match (node.focus, plan.guest_focus) {
        (Some(id), Some(handle)) => before.guest_focus_targets@.insert(id, handle),
        _ => before.guest_focus_targets@,
    })
    &&& after.focus_targets@ == (match plan.track {
        Some(handle) => before.focus_targets@.insert(before.authored_path@, handle),
        None => before.focus_targets@,
    })
    &&& after.scrolls@ == (match plan.scroll {
        Some(handle) => before.scrolls@.insert(before.authored_path@, handle),
        None => before.scrolls@,
    })
    &&& after == (ViewTree {
        guest_focus_targets: after.guest_focus_targets,
        focus_targets: after.focus_targets,
        scrolls: after.scrolls,
        presentation: after.presentation,
        render_index: if node.id is Some {
            before.render_index
        } else {
            (before.render_index + 1) as u64
        },
        ..before
    })
    &&& after.presentation == (crate::render::view::Presentation {
        focused_container: if restores_focus(before) {
            None
        } else {
            before.presentation.focused_container
        },
        ..before.presentation
    })
}

/// Whether the tree `after` is the tree `before` with the node at `path`
/// measured as `bounds`.
pub open spec fn measured_as(
    before: ViewTree,
    path: Seq<u64>,
    bounds: u64,
    after: ViewTree,
) -> bool {
    &&& after.bounds@ == before.bounds@.insert(path, bounds)
    &&& after == (ViewTree {
        bounds: after.bounds,
        stale: before.stale || !(before.bounds@.dom().contains(path) && before.bounds@[path]
            == bounds),
        ..before
    })
}

/// Whether the tree `after` is the tree `before` with the responsive node being
/// drawn measured as `size`.
pub open spec fn sized_as(before: ViewTree, size: u64, after: ViewTree) -> bool {
    &&& after.containers@ == before.containers@.insert(before.authored_path@, size)
    &&& after == (ViewTree {
        containers: after.containers,
        stale: before.stale || !(before.containers@.dom().contains(before.authored_path@)
            && before.containers@[before.authored_path@] == size),
        ..before
    })
}

impl ViewTree {
    /// Draws the container at the path being drawn.
    pub fn container(&mut self, node: ContainerNode, fresh: Fresh) -> (plan: ContainerPlan)
        requires
            old(self).render_index < u64::MAX,
        ensures
            drawn_as(*old(self), node, fresh, *final(self), plan),
    {
        let id = match node.id {
            Some(id) => NativeId::Own(id),
            None => {
                let nth = self.render_index;
                self.render_index = nth + 1;
                NativeId::Nth(nth)
            },
        };
        let label = match node.label {
            Some(label) => Some(label),
            None => if node.role {
                node.text
            } else {
                None
            },
        };
        let guest_focus: Option<u64> = match node.focus {
            Some(id) => {
                let handle: u64 = match self.guest_focus_targets.get(&id) {
                    Some(handle) => *handle,
                    None => fresh.guest_focus,
                };
                self.guest_focus_targets.insert(id, handle);
                Some(handle)
            },
            None => None,
        };
        let named = self.authored_path.len() > 0;
        let path = path_of(self.authored_path.as_slice());
        let mut take_focus = false;
        let mut track: Option<u64> = None;
        if named {
            let restore = match &self.presentation.focused_container {
                Some(saved) => same_path(saved.as_slice(), path.as_slice()),
                None => false,
            };
            let known: Option<u64> = match self.focus_targets.get(&path) {
                Some(handle) => Some(*handle),
                None => None,
            };
            if restore {
                self.presentation.focused_container = None;
                take_focus = true;
                let handle: u64 = match known {
                    Some(handle) => handle,
                    None => fresh.focus,
                };
                self.focus_targets.insert(path_of(path.as_slice()), handle);
                track = Some(handle);
            } else {
                track = known;
            }
        }
        proof {
            if let Some(handle) = track {
                assert(self.focus_targets@ =~= old(self).focus_targets@.insert(path@, handle));
            }
        }
        let scroll: Option<u64> = if node.scrolls && node.id.is_some() && named {
            let handle: u64 = match self.scrolls.get(&path) {
                Some(handle) => *handle,
                None => fresh.scroll,
            };
            self.scrolls.insert(path, handle);
            Some(handle)
        } else {
            None
        };
        ContainerPlan { id, label, guest_focus, take_focus, track, measured: named, scroll }
    }

    /// A person clicked what reports to `handler`.
    pub fn clicked(&mut self, handler: u32)
        ensures
            *final(self) == (ViewTree { user_activation: Some(handler), ..*old(self) }),
    {
        self.user_activation = Some(handler);
    }

    /// The node at `path` measures as `bounds` now; what is on screen is
    /// behind only if that is news.
    pub fn measure(&mut self, path: &[u64], bounds: u64)
        ensures
            measured_as(*old(self), path@, bounds, *final(self)),
    {
        let key = path_of(path);
        let same = match self.bounds.get(&key) {
            Some(known) => *known == bounds,
            None => false,
        };
        if same {
            assert(self.bounds@.insert(path@, bounds) =~= self.bounds@);
            return;
        }
        self.bounds.insert(key, bounds);
        self.stale = true;
    }

    /// The responsive node being drawn measures as `size` now.
    pub fn responsive(&mut self, size: u64)
        ensures
            sized_as(*old(self), size, *final(self)),
    {
        let key = path_of(self.authored_path.as_slice());
        let same = match self.containers.get(&key) {
            Some(known) => *known == size,
            None => false,
        };
        if same {
            assert(self.containers@.insert(key@, size) =~= self.containers@);
            return;
        }
        self.containers.insert(key, size);
        self.stale = true;
    }
}

/// Whether focus, at the end of the frame a dialog opened in, moves to the
/// first control after the dialog's entry: it does while it is still where it
/// was, and is left alone where the dialog's content took it.
pub fn dialog_entry(opened: bool, before: Option<u64>, now: Option<u64>) -> (moves: bool)
    ensures
        moves == (opened && before == now),
{
    opened && before == now
}

// ---------- what these come to ----------
/// What a container is drawn as, by what it is: under its own id, or its place
/// among the id-less ones drawn before it; read as its name, or, having a role
/// and no name, as its text; measured and tracked only where it has a path; and
/// scrolled by a handle exactly where its overflow scrolls and it has both an
/// id and a path.
pub proof fn a_container_is_drawn_as_what_it_is(
    before: ViewTree,
    node: ContainerNode,
    fresh: Fresh,
    after: ViewTree,
    plan: ContainerPlan,
)
    requires
        drawn_as(before, node, fresh, after, plan),
        before.render_index < u64::MAX,
    ensures
        node.id matches Some(id) ==> plan.id == NativeId::Own(id) && after.render_index
            == before.render_index,
        node.id is None ==> plan.id == NativeId::Nth(before.render_index) && after.render_index
            == before.render_index + 1,
        node.label matches Some(name) ==> (plan.label matches Some(label) && label@ == name@),
        node.label is None && !node.role ==> plan.label is None,
        node.label is None && node.role && node.text is Some ==> (plan.label matches Some(label)
            && label@ == node.text->0@),
        node.label is None && node.text is None ==> plan.label is None,
        plan.measured <==> before.authored_path@.len() > 0,
        plan.take_focus || plan.track is Some || plan.scroll is Some ==> plan.measured,
        plan.scroll is Some <==> node.scrolls && node.id is Some && before.authored_path@.len() > 0,
        plan.guest_focus is Some <==> node.focus is Some,
        plan.take_focus ==> plan.track is Some,
{
}

/// A handle made for a container is the one it is drawn with ever after, and
/// none is made where one is known; no other container's changes. Focus is put
/// back once, where it was when the view was put away.
pub proof fn a_containers_handles_last(
    before: ViewTree,
    node: ContainerNode,
    fresh: Fresh,
    after: ViewTree,
    plan: ContainerPlan,
    again: ContainerNode,
    later: Fresh,
    last: ViewTree,
    redrawn: ContainerPlan,
)
    requires
        drawn_as(before, node, fresh, after, plan),
        drawn_as(after, again, later, last, redrawn),
        before.authored_path@.len() > 0,
    ensures
        again.focus == node.focus ==> redrawn.guest_focus == plan.guest_focus,
        redrawn.track == plan.track,
        plan.scroll is Some && redrawn.scroll is Some ==> redrawn.scroll == plan.scroll,
        !(plan.take_focus && redrawn.take_focus),
        plan.take_focus <==> (before.presentation.focused_container matches Some(saved) && saved@
            == before.authored_path@),
        plan.take_focus ==> after.presentation.focused_container is None,
        !plan.take_focus ==> after.presentation.focused_container
            == before.presentation.focused_container,
        before.focus_targets@.dom().contains(before.authored_path@) ==> plan.track == Some(
            before.focus_targets@[before.authored_path@],
        ),
        before.scrolls@.dom().contains(before.authored_path@) && plan.scroll is Some ==> plan.scroll
            == Some(before.scrolls@[before.authored_path@]),
        node.focus matches Some(id) ==> after.guest_focus_targets@.dom().contains(id)
            && plan.guest_focus == Some(after.guest_focus_targets@[id]),
        node.focus matches Some(id) ==> before.guest_focus_targets@.dom().contains(id)
            ==> plan.guest_focus == Some(before.guest_focus_targets@[id]),
        forall|path: Seq<u64>| #[trigger]
            before.focus_targets@.dom().contains(path) ==> after.focus_targets@.dom().contains(path)
                && after.focus_targets@[path] == before.focus_targets@[path],
        forall|path: Seq<u64>| #[trigger]
            before.scrolls@.dom().contains(path) ==> after.scrolls@.dom().contains(path)
                && after.scrolls@[path] == before.scrolls@[path],
        forall|id: u64| #[trigger]
            before.guest_focus_targets@.dom().contains(id)
                ==> after.guest_focus_targets@.dom().contains(id) && after.guest_focus_targets@[id]
                == before.guest_focus_targets@[id],
{
    let path = before.authored_path@;
    assert(after.authored_path@ == path);
    if let Some(handle) = plan.track {
        assert(after.focus_targets@.dom().contains(path));
        assert(after.focus_targets@[path] == handle);
    }
    if let Some(handle) = plan.scroll {
        assert(after.scrolls@[path] == handle);
    }
}

/// A measurement is what the node measures as until the next, no other node's
/// changes, and what is on screen falls behind exactly when it is news.
pub proof fn a_measure_lasts_until_the_next(
    before: ViewTree,
    path: Seq<u64>,
    bounds: u64,
    after: ViewTree,
    other: Seq<u64>,
)
    requires
        measured_as(before, path, bounds, after),
    ensures
        after.bounds@.dom().contains(path) && after.bounds@[path] == bounds,
        other != path ==> (after.bounds@.dom().contains(other) <==> before.bounds@.dom().contains(
            other,
        )) && (before.bounds@.dom().contains(other) ==> after.bounds@[other]
            == before.bounds@[other]),
        before.stale ==> after.stale,
        !before.stale ==> (after.stale <==> after.bounds@ != before.bounds@),
        after.root == before.root && after.authored_path == before.authored_path,
{
    if before.bounds@.dom().contains(path) && before.bounds@[path] == bounds {
        assert(before.bounds@.insert(path, bounds) =~= before.bounds@);
    } else if after.bounds@ == before.bounds@ {
        assert(before.bounds@.insert(path, bounds).dom().contains(path));
        assert(before.bounds@.insert(path, bounds)[path] == bounds);
    }
}

/// The same of the responsive node being drawn.
pub proof fn a_size_lasts_until_the_next(
    before: ViewTree,
    size: u64,
    after: ViewTree,
    other: Seq<u64>,
)
    requires
        sized_as(before, size, after),
    ensures
        after.containers@.dom().contains(before.authored_path@)
            && after.containers@[before.authored_path@] == size,
        other != before.authored_path@ ==> (after.containers@.dom().contains(other)
            <==> before.containers@.dom().contains(other)) && (before.containers@.dom().contains(
            other,
        ) ==> after.containers@[other] == before.containers@[other]),
        before.stale ==> after.stale,
        !before.stale ==> (after.stale <==> after.containers@ != before.containers@),
        after.root == before.root && after.authored_path == before.authored_path,
{
    let path = before.authored_path@;
    if before.containers@.dom().contains(path) && before.containers@[path] == size {
        assert(before.containers@.insert(path, size) =~= before.containers@);
    } else if after.containers@ == before.containers@ {
        assert(before.containers@.insert(path, size).dom().contains(path));
        assert(before.containers@.insert(path, size)[path] == size);
    }
}

/// Focus moves into a dialog only in the frame it opened in, and never away
/// from where it has gone since.
pub proof fn focus_enters_a_dialog_from_where_it_was(
    opened: bool,
    before: Option<u64>,
    now: Option<u64>,
    moves: bool,
)
    requires
        call_ensures(dialog_entry, (opened, before, now), moves),
    ensures
        moves ==> opened,
        opened ==> (moves <==> before == now),
{
}

} // verus!
