//! What a guest's commands reach, and what the next tree keeps.

use vstd::prelude::*;

use crate::render::keyed::AuthoredPath;
use crate::render::keyed::KeySet;
use crate::render::keyed::Keyed;
use crate::render::keyed::path_of;
use crate::render::keyed::same_path;
use crate::render::tree::Kind;
use crate::render::tree::Node;
use crate::render::tree::Role;
use crate::render::tree::ScrollAnchor;
use crate::render::tree::VariableListKey;
use crate::render::tree::Visit;
use crate::render::tree::count;
use crate::render::tree::walk_authored_paths;
use crate::render::view::Sensor;
use crate::render::view::ViewTree;
use crate::render::view::VirtualRow;
use crate::text::chars_of;

verus! {

/// A command a guest gives a widget. Where a command scrolls by a measure, or
/// sets a position, the measure stays with the host.
#[derive(Debug)]
pub enum WidgetCommand {
    Focused { target: AuthoredPath },
    FocusHandle { handle: u64 },
    FocusPrevious,
    FocusNext,
    EditorAction { target: AuthoredPath, tag: String },
    Focus { target: AuthoredPath },
    CursorFront { target: AuthoredPath },
    CursorEnd { target: AuthoredPath },
    Cursor { target: AuthoredPath, position: u32 },
    SelectAll { target: AuthoredPath },
    Select { target: AuthoredPath, start: u32, end: u32 },
    Snap { target: AuthoredPath },
    SnapEnd { target: AuthoredPath },
    ScrollTo { target: AuthoredPath },
    ScrollBy { target: AuthoredPath },
    ScrollToKey { target: AuthoredPath, key: u64 },
}

/// How far a scroller is asked to go: to a share of its range, to a distance,
/// by a distance, to its end, or to a row.
#[derive(Clone, Copy, Debug, PartialEq, Eq, Structural)]
pub enum ScrollRequest {
    Relative,
    Absolute,
    By,
    End,
    Key(u64),
}

/// Which end a distance is measured from.
#[derive(Clone, Copy, Debug, PartialEq, Eq, Structural)]
pub enum Sense {
    FromStart,
    FromEnd,
}

/// What the host does for a command.
#[derive(Debug)]
pub enum Effect {
    /// Nothing.
    Nothing,
    /// Answers whether the target is focused.
    Answer(bool),
    /// Focuses a handle of the guest's, or a container's.
    Focus { handle: u64 },
    /// Hands the guest's binding an interaction on the document drawn there.
    Act { store: u64, path: AuthoredPath, tag: String },
    /// Hands the command to an editor.
    Editor { editor: u64 },
    FocusField { field: u64 },
    FocusPicker { picker: u64 },
    /// Brings a row into view; `None` when no row has the key.
    Reveal { list: u64, row: Option<usize> },
    /// Scrolls a virtual column as asked, its distances in `sense`.
    ScrollList { list: u64, request: ScrollRequest, sense: Sense },
    /// Scrolls a pane as asked, each axis in its own sense, and no further
    /// than it goes.
    ScrollPane { scroll: u64, request: ScrollRequest, x: Sense, y: Sense },
}

// ---------- which node a target names ----------
/// Whether `path` ends with `target`.
pub open spec fn ends_with(path: Seq<u64>, target: Seq<u64>) -> bool {
    target.len() <= path.len() && path.skip(path.len() - target.len()) == target
}

/// The first path that ends with `target`, from the visit at `from` on.
pub open spec fn first_ending(
    all: Seq<(Node, Seq<u64>)>,
    target: Seq<u64>,
    from: int,
) -> Option<Seq<u64>>
    decreases all.len() - from,
{
    if from >= all.len() {
        None
    } else if ends_with(all[from].1, target) {
        Some(all[from].1)
    } else {
        first_ending(all, target, from + 1)
    }
}

/// The path `target` names in the tree under `root`: the first in it that ends
/// with `target`. An empty target names none.
pub open spec fn resolved(root: Node, target: Seq<u64>) -> Option<Seq<u64>> {
    if target.len() == 0 {
        None
    } else {
        first_ending(crate::render::tree::visits(root, Seq::empty()), target, 0)
    }
}

proof fn first_ending_is(all: Seq<(Node, Seq<u64>)>, target: Seq<u64>, from: int)
    requires
        0 <= from <= all.len(),
    ensures
        match first_ending(all, target, from) {
            Some(path) => ends_with(path, target) && exists|i: int|
                from <= i < all.len() && (#[trigger] all[i]).1 == path && forall|j: int|
                    from <= j < i ==> !ends_with((#[trigger] all[j]).1, target),
            None => forall|i: int|
                from <= i < all.len() ==> !ends_with((#[trigger] all[i]).1, target),
        },
    decreases all.len() - from,
{
    if from < all.len() {
        if ends_with(all[from].1, target) {
            assert(all[from].1 == all[from].1);
        } else {
            first_ending_is(all, target, from + 1);
            if let Some(path) = first_ending(all, target, from) {
                let i = choose|i: int|
                    from + 1 <= i < all.len() && (#[trigger] all[i]).1 == path && forall|j: int|
                        from + 1 <= j < i ==> !ends_with((#[trigger] all[j]).1, target);
                assert(from <= i < all.len() && all[i].1 == path);
            }
        }
    }
}

/// A target names a mounted path that ends with it, and names one whenever one
/// does.
pub proof fn a_target_names_a_mounted_path(root: Node, target: Seq<u64>)
    requires
        target.len() > 0,
    ensures
        resolved(root, target) matches Some(path) ==> crate::render::tree::census(
            root,
            Role::Mounted,
        ).contains(path) && ends_with(path, target),
        forall|path: Seq<u64>|
            #[trigger] crate::render::tree::census(root, Role::Mounted).contains(path) && ends_with(
                path,
                target,
            ) ==> resolved(root, target) is Some,
{
    let all = crate::render::tree::visits(root, Seq::empty());
    first_ending_is(all, target, 0);
    if let Some(path) = resolved(root, target) {
        let i = choose|i: int| 0 <= i < all.len() && (#[trigger] all[i]).1 == path;
        assert(crate::render::tree::plays(all[i].0, Role::Mounted));
        assert(crate::render::tree::stands(root, Role::Mounted, path));
    }
}

/// The handle a container scrolls by is kept while a container that scrolls
/// stands there under an id of its own, and a container without an id keeps
/// none.
pub proof fn a_scrolling_container_is_kept_by_its_own_id(root: Node, nth: int)
    requires
        0 <= nth < crate::render::tree::visits(root, Seq::empty()).len(),
        crate::render::tree::visits(root, Seq::empty())[nth].0.kind is Container,
    ensures
        ({
            let (node, path) = crate::render::tree::visits(root, Seq::empty())[nth];
            &&& node.kind->scrolls && node.id is Some ==> crate::render::tree::census(
                root,
                Role::Scroller,
            ).contains(path)
            &&& node.id is None ==> !crate::render::tree::plays(node, Role::Scroller)
        }),
{
}

/// Whatever is kept by role is kept at a mounted path.
pub proof fn what_is_kept_is_mounted(root: Node, role: Role, path: Seq<u64>)
    requires
        crate::render::tree::census(root, role).contains(path),
    ensures
        crate::render::tree::census(root, Role::Mounted).contains(path),
{
    let all = crate::render::tree::visits(root, Seq::empty());
    let i = choose|i: int|
        0 <= i < all.len() && (#[trigger] all[i]).1 == path && crate::render::tree::plays(
            all[i].0,
            role,
        );
    assert(crate::render::tree::plays(all[i].0, Role::Mounted));
}

fn path_ends_with(path: &[u64], target: &[u64]) -> (yes: bool)
    ensures
        yes == ends_with(path@, target@),
{
    if target.len() > path.len() {
        return false;
    }
    let tail = vstd::slice::slice_subrange(path, path.len() - target.len(), path.len());
    assert(tail@ =~= path@.skip(path@.len() - target@.len()));
    same_path(tail, target)
}

// ---------- what has focus ----------
impl ViewTree {
    /// The native object focus on `path` means: a container's handle before a
    /// field, a field before a picker, a picker before an editor.
    pub open spec fn focus_object(self, path: Seq<u64>) -> Option<u64> {
        if self.focus_targets@.dom().contains(path) {
            Some(self.focus_targets@[path])
        } else if self.fields@.dom().contains(path) {
            Some(self.fields@[path])
        } else if self.pickers@.dom().contains(path) {
            Some(self.pickers@[path])
        } else if self.editors@.dom().contains(path) {
            Some(self.editors@[path])
        } else {
            None
        }
    }

    /// Whether what `target` names has focus, `focused` being the native
    /// objects that have it.
    pub open spec fn has_focus(self, target: Seq<u64>, focused: Seq<u64>) -> bool {
        resolved(self.root, target) matches Some(path) && self.focus_object(path) matches Some(object)
            && focused.contains(object)
    }

    /// Whether focus can walk to `path`.
    pub open spec fn available(self, path: Seq<u64>) -> bool {
        self.mounted@.contains(path) && (self.pickers@.dom().contains(path)
            || self.focus_targets@.dom().contains(path) || self.editors@.dom().contains(path))
    }

    /// The paths focus walks, in the tree's order.
    pub open spec fn ring(self) -> Seq<Seq<u64>> {
        available_paths(self, crate::render::tree::visits(self.root, Seq::empty()))
    }

    /// The full path `target` names, when one is mounted. A guest composes a
    /// target from the ids it knows and not from the named ancestors above
    /// them, so a target is the end of the path it names.
    pub fn resolve_target(&self, target: &[u64]) -> (path: Option<AuthoredPath>)
        ensures
            match (path, resolved(self.root, target@)) {
                (Some(path), Some(named)) => path@ == named,
                (None, None) => true,
                _ => false,
            },
    {
        if target.len() == 0 {
            return None;
        }
        let walked = walk_authored_paths(&self.root);
        let ghost all = crate::render::tree::visits(self.root, Seq::empty());
        let mut nth: usize = 0;
        while nth < walked.len()
            invariant
                target@.len() > 0,
                crate::render::tree::seen(walked@) == all,
                all == crate::render::tree::visits(self.root, Seq::empty()),
                nth <= walked@.len(),
                resolved(self.root, target@) == first_ending(all, target@, nth as int),
            decreases walked@.len() - nth,
        {
            assert(all[nth as int].1 == walked@[nth as int].path@);
            if path_ends_with(walked[nth].path.as_slice(), target) {
                return Some(path_of(walked[nth].path.as_slice()));
            }
            nth += 1;
        }
        None
    }

    /// Whether what `target` names has focus.
    pub fn target_focused(&self, target: &[u64], focused: &[u64]) -> (yes: bool)
        ensures
            yes == self.has_focus(target@, focused@),
    {
        let path = match self.resolve_target(target) {
            Some(path) => path,
            None => {
                return false;
            },
        };
        if let Some(handle) = self.focus_targets.get(&path) {
            return holds(focused, *handle);
        }
        if let Some(field) = self.fields.get(&path) {
            return holds(focused, *field);
        }
        if let Some(picker) = self.pickers.get(&path) {
            return holds(focused, *picker);
        }
        match self.editors.get(&path) {
            Some(editor) => holds(focused, *editor),
            None => false,
        }
    }
}

fn holds(numbers: &[u64], number: u64) -> (yes: bool)
    ensures
        yes == numbers@.contains(number),
{
    let mut at: usize = 0;
    while at < numbers.len()
        invariant
            at <= numbers@.len(),
            forall|i: int| 0 <= i < at ==> numbers@[i] != number,
        decreases numbers@.len() - at,
    {
        if numbers[at] == number {
            assert(numbers@[at as int] == number);
            return true;
        }
        at += 1;
    }
    false
}

/// The paths among `all` that focus can walk to, in order.
pub open spec fn available_paths(tree: ViewTree, all: Seq<(Node, Seq<u64>)>) -> Seq<Seq<u64>>
    decreases all.len(),
{
    if all.len() == 0 {
        Seq::empty()
    } else {
        let before = available_paths(tree, all.drop_last());
        if tree.available(all.last().1) {
            before.push(all.last().1)
        } else {
            before
        }
    }
}

/// The views of `paths`.
pub open spec fn path_views(paths: Seq<AuthoredPath>) -> Seq<Seq<u64>> {
    paths.map_values(|path: AuthoredPath| path@)
}

/// The first of `ring` that has focus, from `from` on.
pub open spec fn current(
    tree: ViewTree,
    ring: Seq<Seq<u64>>,
    focused: Seq<u64>,
    from: int,
) -> Option<int>
    decreases ring.len() - from,
{
    if from >= ring.len() {
        None
    } else if tree.has_focus(ring[from], focused) {
        Some(from)
    } else {
        current(tree, ring, focused, from + 1)
    }
}

/// Which of a ring of `len` comes after the one at `at`, or before it; the
/// first, or the last, when focus is on none of them.
pub open spec fn beside(at: Option<int>, len: int, forward: bool) -> int {
    match (at, forward) {
        (Some(at), true) => (at + 1) % len,
        (Some(at), false) => (at + len - 1) % len,
        (None, true) => 0,
        (None, false) => len - 1,
    }
}

/// Walking on and walking back is standing still.
pub proof fn focus_walks_back(at: int, len: int)
    requires
        0 <= at < len,
    ensures
        beside(Some(beside(Some(at), len, true)), len, false) == at,
        beside(Some(beside(Some(at), len, false)), len, true) == at,
        0 <= beside(Some(at), len, true) < len,
        0 <= beside(Some(at), len, false) < len,
{
    if at + 1 == len {
        vstd::arithmetic::div_mod::lemma_mod_self_0(len);
        vstd::arithmetic::div_mod::lemma_small_mod((len - 1) as nat, len as nat);
    } else {
        vstd::arithmetic::div_mod::lemma_small_mod((at + 1) as nat, len as nat);
        vstd::arithmetic::div_mod::lemma_mod_add_multiples_vanish(at, len);
        vstd::arithmetic::div_mod::lemma_small_mod(at as nat, len as nat);
    }
    if at == 0 {
        vstd::arithmetic::div_mod::lemma_small_mod((len - 1) as nat, len as nat);
        vstd::arithmetic::div_mod::lemma_mod_self_0(len);
    } else {
        vstd::arithmetic::div_mod::lemma_mod_add_multiples_vanish(at - 1, len);
        vstd::arithmetic::div_mod::lemma_small_mod((at - 1) as nat, len as nat);
        vstd::arithmetic::div_mod::lemma_small_mod(at as nat, len as nat);
    }
}

// ---------- what a command does ----------
/// Whether a container stands at `path`, with an id of its own or without.
pub open spec fn container_at(root: Node, path: Seq<u64>) -> bool {
    exists|i: int|
        0 <= i < crate::render::tree::visits(root, Seq::empty()).len() && (
        #[trigger] crate::render::tree::visits(root, Seq::empty())[i]).1 == path
            && crate::render::tree::visits(root, Seq::empty())[i].0.kind is Container
}

/// Whether `effect` is what `command` does to what stands at `path`, when it
/// is not a container taking focus.
pub open spec fn answers(
    tree: ViewTree,
    path: Seq<u64>,
    command: WidgetCommand,
    effect: Result<Effect, String>,
) -> bool {
    match command {
        WidgetCommand::EditorAction { tag, .. } => {
            if tree.editors@.dom().contains(path) && tree.editor_store is Some {
                effect matches Ok(Effect::Act { store, path: at, tag: said }) && store
                    == tree.editor_store->0 && at@ == path && said@ == tag@
            } else {
                effect matches Err(said) && said@
                    == "editor action target is not a mounted editor"@
            }
        },
        _ => {
            if tree.editors@.dom().contains(path) {
                effect == Ok::<Effect, String>(Effect::Editor { editor: tree.editors@[path] })
            } else if command !is Focus {
                effect == Ok::<Effect, String>(Effect::Nothing)
            } else if tree.fields@.dom().contains(path) {
                effect == Ok::<Effect, String>(Effect::FocusField { field: tree.fields@[path] })
            } else if tree.pickers@.dom().contains(path) {
                effect == Ok::<Effect, String>(Effect::FocusPicker { picker: tree.pickers@[path] })
            } else {
                effect == Ok::<Effect, String>(Effect::Nothing)
            }
        },
    }
}

/// Whether `effect`, leaving the view as `after`, is what `command` does to
/// what `target` names. A container that never took focus takes the handle
/// `fresh`.
pub open spec fn commanded(
    before: ViewTree,
    after: ViewTree,
    target: Seq<u64>,
    command: WidgetCommand,
    fresh: u64,
    effect: Result<Effect, String>,
) -> bool {
    match resolved(before.root, target) {
        None => after == before && effect == Ok::<Effect, String>(Effect::Nothing),
        Some(path) => {
            if command is Focus && container_at(before.root, path) {
                let handle = if before.focus_targets@.dom().contains(path) {
                    before.focus_targets@[path]
                } else {
                    fresh
                };
                &&& effect == Ok::<Effect, String>(Effect::Focus { handle })
                &&& after.focus_targets@ == before.focus_targets@.insert(path, handle)
                &&& after == (ViewTree {
                    focus_targets: after.focus_targets,
                    stale: true,
                    ..before
                })
            } else {
                after == before && answers(before, path, command, effect)
            }
        },
    }
}

/// Whether `effect`, leaving the view as `after`, is one step of focus along
/// the ring.
pub open spec fn walked_focus(
    before: ViewTree,
    after: ViewTree,
    forward: bool,
    focused: Seq<u64>,
    fresh: u64,
    effect: Result<Effect, String>,
) -> bool {
    let ring = before.ring();
    if ring.len() == 0 {
        after == before && effect == Ok::<Effect, String>(Effect::Nothing)
    } else {
        let next = beside(current(before, ring, focused, 0), ring.len() as int, forward);
        exists|command: WidgetCommand|
            command is Focus && #[trigger] commanded(
                before,
                after,
                ring[next],
                command,
                fresh,
                effect,
            )
    }
}

fn is_container_at(root: &Node, path: &[u64]) -> (yes: bool)
    ensures
        yes == container_at(*root, path@),
{
    let walked = walk_authored_paths(root);
    let ghost all = crate::render::tree::visits(*root, Seq::empty());
    let mut nth: usize = 0;
    while nth < walked.len()
        invariant
            crate::render::tree::seen(walked@) == all,
            all == crate::render::tree::visits(*root, Seq::empty()),
            nth <= walked@.len(),
            forall|i: int|
                0 <= i < nth ==> !((#[trigger] all[i]).1 == path@ && all[i].0.kind is Container),
        decreases walked@.len() - nth,
    {
        assert(all[nth as int] == (*walked@[nth as int].node, walked@[nth as int].path@));
        if same_path(walked[nth].path.as_slice(), path) && matches!(
            &walked[nth].node.kind,
            Kind::Container { .. }
        ) {
            return true;
        }
        nth += 1;
    }
    false
}

/// What ends the key of the row a guest knows as `key`.
pub open spec fn row_suffix(key: u64) -> Seq<char> {
    "/@row:"@ + crate::text::decimal(key as nat)
}

/// The first row known as `key`, from `from` on.
pub open spec fn row_of_key(rows: Seq<VirtualRow>, key: u64, from: int) -> Option<int>
    decreases rows.len() - from,
{
    if from >= rows.len() {
        None
    } else if crate::outside::ends_with(rows[from].key@, row_suffix(key)) {
        Some(from)
    } else {
        row_of_key(rows, key, from + 1)
    }
}

fn ends(text: &str, tail: &str) -> (yes: bool)
    ensures
        yes == crate::outside::ends_with(text@, tail@),
{
    let text_chars = chars_of(text);
    let tail_chars = chars_of(tail);
    if tail_chars.len() > text_chars.len() {
        return false;
    }
    let shift: usize = text_chars.len() - tail_chars.len();
    let mut at: usize = 0;
    while at < tail_chars.len()
        invariant
            text_chars@ == text@,
            tail_chars@ == tail@,
            shift + tail_chars.len() == text_chars.len(),
            at <= tail_chars@.len(),
            forall|i: int| 0 <= i < at ==> text@[shift + i] == #[trigger] tail@[i],
        decreases tail_chars@.len() - at,
    {
        if text_chars[shift + at] != tail_chars[at] {
            assert(text@.skip(shift as int)[at as int] != tail@[at as int]);
            return false;
        }
        at += 1;
    }
    assert(text@.skip(shift as int) =~= tail@);
    true
}

fn find_row(rows: &Vec<VirtualRow>, key: u64) -> (row: Option<usize>)
    ensures
        match (row, row_of_key(rows@, key, 0)) {
            (Some(row), Some(at)) => row == at,
            (None, None) => true,
            _ => false,
        },
{
    let mut suffix = "/@row:".to_owned();
    crate::text::push_decimal(&mut suffix, key);
    let mut at: usize = 0;
    while at < rows.len()
        invariant
            suffix@ == row_suffix(key),
            at <= rows@.len(),
            row_of_key(rows@, key, 0) == row_of_key(rows@, key, at as int),
        decreases rows@.len() - at,
    {
        if ends(rows[at].key.as_str(), suffix.as_str()) {
            return Some(at);
        }
        at += 1;
    }
    None
}

/// The sense an anchor measures in.
pub open spec fn sense_of(anchor: ScrollAnchor) -> Sense {
    if anchor == ScrollAnchor::End {
        Sense::FromEnd
    } else {
        Sense::FromStart
    }
}

/// The sense an anchor measures in.
pub fn sense(anchor: ScrollAnchor) -> (sense: Sense)
    ensures
        sense == sense_of(anchor),
{
    if anchor == ScrollAnchor::End {
        Sense::FromEnd
    } else {
        Sense::FromStart
    }
}

/// The anchors of the last scroll node standing at `path` among `all`; the
/// start on both axes where none does.
pub open spec fn anchors_at(all: Seq<(Node, Seq<u64>)>, path: Seq<u64>) -> (
    ScrollAnchor,
    ScrollAnchor,
)
    decreases all.len(),
{
    if all.len() == 0 {
        (ScrollAnchor::Start, ScrollAnchor::Start)
    } else {
        match all.last().0.kind {
            Kind::Scroll { anchor_x, anchor_y } if all.last().1 == path => (anchor_x, anchor_y),
            _ => anchors_at(all.drop_last(), path),
        }
    }
}

fn scroll_anchors(root: &Node, path: &[u64]) -> (anchors: (ScrollAnchor, ScrollAnchor))
    ensures
        anchors == anchors_at(crate::render::tree::visits(*root, Seq::empty()), path@),
{
    let walked = walk_authored_paths(root);
    let ghost all = crate::render::tree::visits(*root, Seq::empty());
    let mut anchors = (ScrollAnchor::Start, ScrollAnchor::Start);
    let mut nth: usize = 0;
    while nth < walked.len()
        invariant
            crate::render::tree::seen(walked@) == all,
            nth <= walked@.len(),
            anchors == anchors_at(all.take(nth as int), path@),
        decreases walked@.len() - nth,
    {
        assert(all[nth as int] == (*walked@[nth as int].node, walked@[nth as int].path@));
        assert(all.take(nth + 1).drop_last() =~= all.take(nth as int));
        assert(all.take(nth + 1).last() == all[nth as int]);
        if let Kind::Scroll { anchor_x, anchor_y } = &walked[nth].node.kind {
            if same_path(walked[nth].path.as_slice(), path) {
                anchors = (*anchor_x, *anchor_y);
            }
        }
        nth += 1;
    }
    assert(all.take(nth as int) =~= all);
    anchors
}

/// What `request` does to what `target` names: a virtual column there before
/// a pane, and nothing where neither is.
pub open spec fn scroll_effect(tree: ViewTree, target: Seq<u64>, request: ScrollRequest) -> Effect {
    match resolved(tree.root, target) {
        None => Effect::Nothing,
        Some(path) => {
            if tree.lists@.dom().contains(path) {
                let list = tree.lists@[path];
                match request {
                    ScrollRequest::Key(key) => Effect::Reveal {
                        list: list.state,
                        row: match row_of_key(list.rows@, key, 0) {
                            Some(row) => Some(row as usize),
                            None => None,
                        },
                    },
                    _ => Effect::ScrollList {
                        list: list.state,
                        request,
                        sense: sense_of(list.anchor),
                    },
                }
            } else if tree.scrolls@.dom().contains(path) && request !is Key {
                let anchors = anchors_at(
                    crate::render::tree::visits(tree.root, Seq::empty()),
                    path,
                );
                Effect::ScrollPane {
                    scroll: tree.scrolls@[path],
                    request,
                    x: sense_of(anchors.0),
                    y: sense_of(anchors.1),
                }
            } else {
                Effect::Nothing
            }
        },
    }
}

proof fn row_of_key_is(rows: Seq<VirtualRow>, key: u64, from: int)
    requires
        0 <= from <= rows.len(),
    ensures
        row_of_key(rows, key, from) matches Some(row) ==> from <= row < rows.len(),
    decreases rows.len() - from,
{
    if from < rows.len() {
        row_of_key_is(rows, key, from + 1);
    }
}

impl ViewTree {
    /// Moves focus one step along the ring.
    pub fn focus_relative(&mut self, forward: bool, focused: &[u64], fresh: u64) -> (effect: Result<
        Effect,
        String,
    >)
        ensures
            walked_focus(*old(self), *final(self), forward, focused@, fresh, effect),
    {
        let ghost tree = *self;
        let ghost all = crate::render::tree::visits(self.root, Seq::empty());
        let mut ring: Vec<AuthoredPath> = Vec::new();
        let walked = walk_authored_paths(&self.root);
        let mut nth: usize = 0;
        while nth < walked.len()
            invariant
                *self == tree,
                crate::render::tree::seen(walked@) == all,
                nth <= walked@.len(),
                path_views(ring@) == available_paths(tree, all.take(nth as int)),
            decreases walked@.len() - nth,
        {
            let path = &walked[nth].path;
            assert(all[nth as int].1 == path@);
            assert(all.take(nth + 1).drop_last() =~= all.take(nth as int));
            assert(all.take(nth + 1).last() == all[nth as int]);
            let available = self.mounted.contains(path) && (self.pickers.contains_key(path)
                || self.focus_targets.contains_key(path) || self.editors.contains_key(path));
            if available {
                let ghost before = ring@;
                ring.push(path_of(path.as_slice()));
                assert(path_views(ring@) =~= path_views(before).push(path@));
            }
            nth += 1;
        }
        assert(all.take(nth as int) =~= all);
        assert(path_views(ring@) == tree.ring());
        if ring.len() == 0 {
            return Ok(Effect::Nothing);
        }
        let mut at: usize = 0;
        let mut found = false;
        while at < ring.len() && !found
            invariant
                *self == tree,
                path_views(ring@) == tree.ring(),
                at <= ring@.len(),
                found ==> at < ring@.len() && current(tree, tree.ring(), focused@, 0) == Some(
                    at as int,
                ),
                !found ==> current(tree, tree.ring(), focused@, 0) == current(
                    tree,
                    tree.ring(),
                    focused@,
                    at as int,
                ),
            decreases ring@.len() - at + (if found { 0int } else { 1int }),
        {
            assert(tree.ring()[at as int] == ring@[at as int]@);
            if self.target_focused(ring[at].as_slice(), focused) {
                found = true;
            } else {
                at += 1;
            }
        }
        let len: usize = ring.len();
        let index: usize = if found {
            if forward {
                if at + 1 == len {
                    0
                } else {
                    at + 1
                }
            } else {
                if at == 0 {
                    len - 1
                } else {
                    at - 1
                }
            }
        } else if forward {
            0
        } else {
            len - 1
        };
        proof {
            let here = current(tree, tree.ring(), focused@, 0);
            if found {
                if at + 1 == len {
                    vstd::arithmetic::div_mod::lemma_mod_self_0(len as int);
                } else {
                    vstd::arithmetic::div_mod::lemma_small_mod((at + 1) as nat, len as nat);
                }
                if at == 0 {
                    vstd::arithmetic::div_mod::lemma_small_mod((len - 1) as nat, len as nat);
                } else {
                    vstd::arithmetic::div_mod::lemma_mod_add_multiples_vanish(at - 1, len as int);
                    vstd::arithmetic::div_mod::lemma_small_mod((at - 1) as nat, len as nat);
                }
            }
            assert(index == beside(here, len as int, forward));
            assert(tree.ring()[index as int] == ring@[index as int]@);
        }
        let command = WidgetCommand::Focus { target: path_of(ring[index].as_slice()) };
        self.input_command(ring[index].as_slice(), &command, fresh)
    }

    /// Does `command` to what `target` names. Neither editor decides what a
    /// view's tag means, so an editor action goes to the guest's binding.
    pub fn input_command(&mut self, target: &[u64], command: &WidgetCommand, fresh: u64) -> (effect:
        Result<Effect, String>)
        ensures
            commanded(*old(self), *final(self), target@, *command, fresh, effect),
    {
        let path = match self.resolve_target(target) {
            Some(path) => path,
            None => {
                return Ok(Effect::Nothing);
            },
        };
        let focusing = matches!(command, WidgetCommand::Focus { .. });
        if focusing && is_container_at(&self.root, path.as_slice()) {
            let handle: u64 = match self.focus_targets.get(&path) {
                Some(handle) => *handle,
                None => fresh,
            };
            self.focus_targets.insert(path, handle);
            self.stale = true;
            return Ok(Effect::Focus { handle });
        }
        if let WidgetCommand::EditorAction { tag, .. } = command {
            if self.editors.contains_key(&path) {
                if let Some(store) = self.editor_store {
                    return Ok(Effect::Act { store, path, tag: tag.clone() });
                }
            }
            return Err("editor action target is not a mounted editor".to_owned());
        }
        if let Some(editor) = self.editors.get(&path) {
            return Ok(Effect::Editor { editor: *editor });
        }
        if let Some(field) = self.fields.get(&path) {
            if focusing {
                return Ok(Effect::FocusField { field: *field });
            }
            return Ok(Effect::Nothing);
        }
        if let Some(picker) = self.pickers.get(&path) {
            if focusing {
                return Ok(Effect::FocusPicker { picker: *picker });
            }
        }
        Ok(Effect::Nothing)
    }

    /// What `request` does to what `target` names.
    pub fn scroll_command(&mut self, target: &[u64], request: ScrollRequest) -> (effect: Effect)
        ensures
            effect == scroll_effect(*old(self), target@, request),
            *final(self) == (if effect is Nothing {
                *old(self)
            } else {
                ViewTree { stale: true, ..*old(self) }
            }),
    {
        let path = match self.resolve_target(target) {
            Some(path) => path,
            None => {
                return Effect::Nothing;
            },
        };
        if let Some(list) = self.lists.get(&path) {
            let effect = match request {
                ScrollRequest::Key(key) => {
                    proof {
                        row_of_key_is(list.rows@, key, 0);
                    }
                    Effect::Reveal { list: list.state, row: find_row(&list.rows, key) }
                },
                _ => Effect::ScrollList { list: list.state, request, sense: sense(list.anchor) },
            };
            self.stale = true;
            return effect;
        }
        let scroll: u64 = match self.scrolls.get(&path) {
            Some(scroll) => *scroll,
            None => {
                return Effect::Nothing;
            },
        };
        if let ScrollRequest::Key(_) = request {
            return Effect::Nothing;
        }
        let anchors = scroll_anchors(&self.root, path.as_slice());
        self.stale = true;
        Effect::ScrollPane { scroll, request, x: sense(anchors.0), y: sense(anchors.1) }
    }
}

// ---------- one command ----------
/// The request a scrolling command makes.
pub open spec fn request_of(command: WidgetCommand) -> Option<(Seq<u64>, ScrollRequest)> {
    match command {
        WidgetCommand::Snap { target } => Some((target@, ScrollRequest::Relative)),
        WidgetCommand::SnapEnd { target } => Some((target@, ScrollRequest::End)),
        WidgetCommand::ScrollTo { target } => Some((target@, ScrollRequest::Absolute)),
        WidgetCommand::ScrollBy { target } => Some((target@, ScrollRequest::By)),
        WidgetCommand::ScrollToKey { target, key } => Some((target@, ScrollRequest::Key(key))),
        _ => None,
    }
}

/// The target of a command given to a field, a picker, an editor or a
/// container.
pub open spec fn input_target(command: WidgetCommand) -> Option<Seq<u64>> {
    match command {
        WidgetCommand::EditorAction { target, .. } => Some(target@),
        WidgetCommand::Focus { target } => Some(target@),
        WidgetCommand::CursorFront { target } => Some(target@),
        WidgetCommand::CursorEnd { target } => Some(target@),
        WidgetCommand::Cursor { target, .. } => Some(target@),
        WidgetCommand::SelectAll { target } => Some(target@),
        WidgetCommand::Select { target, .. } => Some(target@),
        _ => None,
    }
}

/// Whether `effect`, leaving the view as `after`, is what `command` does once
/// `valid`.
pub open spec fn executed(
    before: ViewTree,
    command: WidgetCommand,
    valid: Result<(), String>,
    focused: Seq<u64>,
    fresh: u64,
    after: ViewTree,
    effect: Result<Effect, String>,
) -> bool {
    &&& valid matches Err(said) ==> effect == Err::<Effect, String>(said) && after == before
    &&& valid is Ok ==> match command {
        WidgetCommand::Focused { target } => effect == Ok::<Effect, String>(
            Effect::Answer(before.has_focus(target@, focused)),
        ) && after == before,
        WidgetCommand::FocusHandle { handle } => after == before && (if before.guest_focus_targets@.dom().contains(handle) {
            effect == Ok::<Effect, String>(
                Effect::Focus { handle: before.guest_focus_targets@[handle] },
            )
        } else {
            effect matches Err(said) && said@ == "focus handle is not mounted"@
        }),
        WidgetCommand::FocusPrevious => walked_focus(
            before,
            after,
            false,
            focused,
            fresh,
            effect,
        ),
        WidgetCommand::FocusNext => walked_focus(
            before,
            after,
            true,
            focused,
            fresh,
            effect,
        ),
        _ => {
            &&& input_target(command) matches Some(target) ==> commanded(
                before,
                after,
                target,
                command,
                fresh,
                effect,
            )
            &&& request_of(command) matches Some((target, request)) ==> effect == Ok::<
                Effect,
                String,
            >(scroll_effect(before, target, request)) && after == (if scroll_effect(
                before,
                target,
                request,
            ) is Nothing {
                before
            } else {
                ViewTree { stale: true, ..before }
            })
        },
    }
}

impl ViewTree {
    /// Does `command`, once it is `valid`; one that is not is refused in the
    /// words that say why. `focused` are the native objects that have focus,
    /// and `fresh` the handle a container that never took it takes.
    pub fn execute_widget_command(
        &mut self,
        command: WidgetCommand,
        valid: Result<(), String>,
        focused: &[u64],
        fresh: u64,
    ) -> (effect: Result<Effect, String>)
        ensures
            executed(*old(self), command, valid, focused@, fresh, *final(self), effect),
    {
        if let Err(said) = valid {
            return Err(said);
        }
        match &command {
            WidgetCommand::Focused { target } => Ok(
                Effect::Answer(self.target_focused(target.as_slice(), focused)),
            ),
            WidgetCommand::FocusHandle { handle } => match self.guest_focus_targets.get(handle) {
                Some(object) => Ok(Effect::Focus { handle: *object }),
                None => Err("focus handle is not mounted".to_owned()),
            },
            WidgetCommand::FocusPrevious => self.focus_relative(false, focused, fresh),
            WidgetCommand::FocusNext => self.focus_relative(true, focused, fresh),
            WidgetCommand::EditorAction { target, .. } => self.input_command(
                target.as_slice(),
                &command,
                fresh,
            ),
            WidgetCommand::Focus { target } => self.input_command(
                target.as_slice(),
                &command,
                fresh,
            ),
            WidgetCommand::CursorFront { target } => self.input_command(
                target.as_slice(),
                &command,
                fresh,
            ),
            WidgetCommand::CursorEnd { target } => self.input_command(
                target.as_slice(),
                &command,
                fresh,
            ),
            WidgetCommand::Cursor { target, .. } => self.input_command(
                target.as_slice(),
                &command,
                fresh,
            ),
            WidgetCommand::SelectAll { target } => self.input_command(
                target.as_slice(),
                &command,
                fresh,
            ),
            WidgetCommand::Select { target, .. } => self.input_command(
                target.as_slice(),
                &command,
                fresh,
            ),
            WidgetCommand::Snap { target } => Ok(
                self.scroll_command(target.as_slice(), ScrollRequest::Relative),
            ),
            WidgetCommand::SnapEnd { target } => Ok(
                self.scroll_command(target.as_slice(), ScrollRequest::End),
            ),
            WidgetCommand::ScrollTo { target } => Ok(
                self.scroll_command(target.as_slice(), ScrollRequest::Absolute),
            ),
            WidgetCommand::ScrollBy { target } => Ok(
                self.scroll_command(target.as_slice(), ScrollRequest::By),
            ),
            WidgetCommand::ScrollToKey { target, key } => Ok(
                self.scroll_command(target.as_slice(), ScrollRequest::Key(*key)),
            ),
        }
    }
}

// ---------- what a command comes to ----------
/// An empty target names nothing. Any other names the first path in the tree's
/// order whose last ids are the target's, one by one, and nothing where no path
/// ends so.
pub proof fn a_target_is_the_end_of_the_path_it_names(root: Node, target: Seq<u64>) -> (nth: int)
    ensures
        ({
            let all = crate::render::tree::visits(root, Seq::empty());
            match resolved(root, target) {
                None => target.len() == 0 || forall|i: int, above: Seq<u64>|
                    0 <= i < all.len() ==> #[trigger] all[i].1 != #[trigger] (above + target),
                Some(path) => {
                    &&& 0 <= nth < all.len() && all[nth].1 == path
                    &&& 0 < target.len() <= path.len()
                    &&& path == path.take(path.len() - target.len()) + target
                    &&& forall|i: int, above: Seq<u64>|
                        0 <= i < nth ==> #[trigger] all[i].1 != #[trigger] (above + target)
                },
            }
        }),
{
    let all = crate::render::tree::visits(root, Seq::empty());
    first_ending_is(all, target, 0);
    assert forall|above: Seq<u64>| ends_with(#[trigger] (above + target), target) by {
        assert((above + target).skip((above + target).len() - target.len()) =~= target);
    }
    match first_ending(all, target, 0) {
        None => 0,
        Some(path) => {
            let i = choose|i: int|
                0 <= i < all.len() && (#[trigger] all[i]).1 == path && forall|j: int|
                    0 <= j < i ==> !ends_with((#[trigger] all[j]).1, target);
            assert(path =~= path.take(path.len() - target.len()) + target);
            i
        },
    }
}

/// Whether something has focus is asked of the first native object kept at the
/// path it names: its container's handle, its field, its picker, its editor.
/// Nothing kept there, or nothing named, has none; and asking changes nothing.
pub proof fn focus_is_what_stands_there_having_it(
    before: ViewTree,
    target: AuthoredPath,
    focused: Seq<u64>,
    fresh: u64,
    after: ViewTree,
    effect: Result<Effect, String>,
)
    requires
        executed(
            before,
            WidgetCommand::Focused { target },
            Ok(()),
            focused,
            fresh,
            after,
            effect,
        ),
    ensures
        after == before,
        effect matches Ok(Effect::Answer(yes)) && (match resolved(before.root, target@) {
            None => !yes,
            Some(path) => {
                &&& before.focus_targets@.dom().contains(path) ==> (yes <==> focused.contains(
                    before.focus_targets@[path],
                ))
                &&& !before.focus_targets@.dom().contains(path) && before.fields@.dom().contains(
                    path,
                ) ==> (yes <==> focused.contains(before.fields@[path]))
                &&& !before.focus_targets@.dom().contains(path) && !before.fields@.dom().contains(
                    path,
                ) && before.pickers@.dom().contains(path) ==> (yes <==> focused.contains(
                    before.pickers@[path],
                ))
                &&& !before.focus_targets@.dom().contains(path) && !before.fields@.dom().contains(
                    path,
                ) && !before.pickers@.dom().contains(path) && before.editors@.dom().contains(path)
                    ==> (yes <==> focused.contains(before.editors@[path]))
                &&& !before.focus_targets@.dom().contains(path) && !before.fields@.dom().contains(
                    path,
                ) && !before.pickers@.dom().contains(path) && !before.editors@.dom().contains(path)
                    ==> !yes
            },
        }),
{
}

/// A command that is not valid is refused in the words that say why; a handle
/// of the guest's is focused where it is kept, and refused where it is not.
/// Neither changes anything.
pub proof fn what_is_refused_changes_nothing(
    before: ViewTree,
    command: WidgetCommand,
    valid: Result<(), String>,
    focused: Seq<u64>,
    fresh: u64,
    after: ViewTree,
    effect: Result<Effect, String>,
)
    requires
        executed(before, command, valid, focused, fresh, after, effect),
    ensures
        valid matches Err(said) ==> effect == Err::<Effect, String>(said) && after == before,
        valid is Ok && command is FocusHandle ==> after == before && (effect is Ok
            <==> before.guest_focus_targets@.dom().contains(command->FocusHandle_handle)),
        valid is Ok && command is FocusHandle && effect is Ok ==> effect->Ok_0 == (Effect::Focus {
            handle: before.guest_focus_targets@[command->FocusHandle_handle],
        }),
        valid is Ok && command is FocusHandle && effect is Err ==> effect->Err_0@
            == "focus handle is not mounted"@,
        after.root == before.root,
        after.fields == before.fields && after.pickers == before.pickers && after.editors
            == before.editors && after.lists == before.lists && after.scrolls == before.scrolls,
        before.stale ==> after.stale,
        effect is Err ==> after == before,
{
    if valid is Ok && (command is FocusNext || command is FocusPrevious) {
        let ring = before.ring();
        if ring.len() > 0 {
            let forward = command is FocusNext;
            let next = beside(current(before, ring, focused, 0), ring.len() as int, forward);
            let step = choose|step: WidgetCommand|
                step is Focus && #[trigger] commanded(
                    before,
                    after,
                    ring[next],
                    step,
                    fresh,
                    effect,
                );
            assert(commanded(before, after, ring[next], step, fresh, effect));
        }
    }
}

/// What an input command does, by what stands at the path it names. Focus on a
/// container focuses its handle, made once; focus elsewhere goes to the editor
/// there, or the field, or the picker. The cursor's commands go to an editor
/// alone. An interaction goes to the store of the guest's binding, and is
/// refused where no editor is.
pub proof fn an_input_command_reaches_what_stands_there(
    before: ViewTree,
    command: WidgetCommand,
    target: Seq<u64>,
    focused: Seq<u64>,
    fresh: u64,
    after: ViewTree,
    effect: Result<Effect, String>,
)
    requires
        executed(before, command, Ok(()), focused, fresh, after, effect),
        (command matches WidgetCommand::Focus { target: at } && at@ == target)
            || (command matches WidgetCommand::CursorFront { target: at } && at@ == target)
            || (command matches WidgetCommand::CursorEnd { target: at } && at@ == target)
            || (command matches WidgetCommand::Cursor { target: at, .. } && at@ == target)
            || (command matches WidgetCommand::SelectAll { target: at } && at@ == target)
            || (command matches WidgetCommand::Select { target: at, .. } && at@ == target)
            || (command matches WidgetCommand::EditorAction { target: at, .. } && at@ == target),
    ensures
        resolved(before.root, target) is None ==> effect == Ok::<Effect, String>(Effect::Nothing)
            && after == before,
        resolved(before.root, target) matches Some(path) ==> {
            let editor = before.editors@.dom().contains(path);
            let focus = command is Focus;
            let container = focus && container_at(before.root, path);
            &&& container ==> {
                &&& effect matches Ok(Effect::Focus { handle }) && after.focus_targets@.dom().contains(
                    path,
                ) && after.focus_targets@[path] == handle && (if before.focus_targets@.dom().contains(
                    path,
                ) {
                    handle == before.focus_targets@[path]
                } else {
                    handle == fresh
                })
                &&& after.stale
                &&& forall|other: Seq<u64>|
                    other != path ==> (#[trigger] after.focus_targets@.dom().contains(other)
                        <==> before.focus_targets@.dom().contains(other)) && (
                    before.focus_targets@.dom().contains(other) ==> after.focus_targets@[other]
                        == before.focus_targets@[other])
            }
            &&& !container ==> after == before
            &&& !container && editor && command !is EditorAction ==> effect == Ok::<Effect, String>(
                Effect::Editor { editor: before.editors@[path] },
            )
            &&& !container && !editor && focus && before.fields@.dom().contains(path) ==> effect
                == Ok::<Effect, String>(Effect::FocusField { field: before.fields@[path] })
            &&& !container && !editor && focus && !before.fields@.dom().contains(path)
                && before.pickers@.dom().contains(path) ==> effect == Ok::<Effect, String>(
                Effect::FocusPicker { picker: before.pickers@[path] },
            )
            &&& !container && !editor && focus && !before.fields@.dom().contains(path)
                && !before.pickers@.dom().contains(path) ==> effect == Ok::<Effect, String>(
                Effect::Nothing,
            )
            &&& !editor && !focus && command !is EditorAction ==> effect == Ok::<Effect, String>(
                Effect::Nothing,
            )
            &&& command matches WidgetCommand::EditorAction { tag, .. } ==> {
                &&& effect is Ok <==> editor && before.editor_store is Some
                &&& effect is Ok ==> (effect->Ok_0 matches Effect::Act { store, path: at, tag: said }
                    && Some(store) == before.editor_store && at@ == path && said@ == tag@)
                &&& effect is Err ==> effect->Err_0@
                    == "editor action target is not a mounted editor"@
            }
        },
{
}

proof fn what_is_available(tree: ViewTree, all: Seq<(Node, Seq<u64>)>) -> (places: Seq<int>)
    ensures
        places.len() == available_paths(tree, all).len(),
        forall|i: int|
            0 <= i < places.len() ==> 0 <= #[trigger] places[i] < all.len() && available_paths(
                tree,
                all,
            )[i] == all[places[i]].1,
        forall|i: int, j: int|
            0 <= i < j < places.len() ==> #[trigger] places[i] < #[trigger] places[j],
        forall|n: int|
            0 <= n < all.len() ==> (places.contains(n) <==> #[trigger] tree.available(all[n].1)),
    decreases all.len(),
{
    if all.len() == 0 {
        Seq::empty()
    } else {
        let before = all.drop_last();
        let places = what_is_available(tree, before);
        let last = all.len() - 1;
        assert forall|n: int| 0 <= n < before.len() implies (places.contains(n)
            <==> #[trigger] tree.available(all[n].1)) by {
            assert(before[n] == all[n]);
        }
        assert(!places.contains(last));
        if tree.available(all.last().1) {
            let more = places.push(last);
            assert(more[places.len() as int] == last);
            assert forall|n: int| 0 <= n < all.len() implies (more.contains(n)
                <==> #[trigger] tree.available(all[n].1)) by {
                if n < last {
                    if places.contains(n) {
                        let i = choose|i: int| 0 <= i < places.len() && places[i] == n;
                        assert(more[i] == n);
                    }
                    if more.contains(n) {
                        let i = choose|i: int| 0 <= i < more.len() && more[i] == n;
                        assert(places[i] == n);
                    }
                }
            }
            more
        } else {
            places
        }
    }
}

/// Focus walks the mounted paths that a picker, a container that took focus or
/// an editor stands at, all of them and no others, in the tree's order.
pub proof fn focus_walks_the_tree_in_order(tree: ViewTree) -> (places: Seq<int>)
    ensures
        ({
            let all = crate::render::tree::visits(tree.root, Seq::empty());
            &&& places.len() == tree.ring().len()
            &&& forall|i: int|
                0 <= i < places.len() ==> 0 <= #[trigger] places[i] < all.len() && tree.ring()[i]
                    == all[places[i]].1
            &&& forall|i: int, j: int|
                0 <= i < j < places.len() ==> #[trigger] places[i] < #[trigger] places[j]
            &&& forall|n: int|
                0 <= n < all.len() ==> (places.contains(n) <==> tree.mounted@.contains(
                    (#[trigger] all[n]).1,
                ) && (tree.pickers@.dom().contains(all[n].1) || tree.focus_targets@.dom().contains(
                    all[n].1,
                ) || tree.editors@.dom().contains(all[n].1)))
        }),
{
    let all = crate::render::tree::visits(tree.root, Seq::empty());
    let places = what_is_available(tree, all);
    assert forall|n: int| 0 <= n < all.len() implies (places.contains(n)
        <==> tree.mounted@.contains((#[trigger] all[n]).1) && (tree.pickers@.dom().contains(
        all[n].1,
    ) || tree.focus_targets@.dom().contains(all[n].1) || tree.editors@.dom().contains(
        all[n].1,
    ))) by {
        assert(places.contains(n) <==> tree.available(all[n].1));
    }
    places
}

proof fn current_is(
    tree: ViewTree,
    ring: Seq<Seq<u64>>,
    focused: Seq<u64>,
    from: int,
    at: Option<int>,
)
    requires
        0 <= from <= ring.len(),
        match at {
            Some(at) => from <= at < ring.len() && tree.has_focus(ring[at], focused) && forall|
                i: int,
            |
                from <= i < at ==> !tree.has_focus(#[trigger] ring[i], focused),
            None => forall|i: int|
                from <= i < ring.len() ==> !tree.has_focus(#[trigger] ring[i], focused),
        },
    ensures
        current(tree, ring, focused, from) == at,
    decreases ring.len() - from,
{
    if from < ring.len() && at != Some(from) {
        assert(!tree.has_focus(ring[from], focused));
        current_is(tree, ring, focused, from + 1, at);
    }
}

/// Walking on focuses the one after the first that has focus, and the first
/// after the last; walking back the one before, and the last before the first.
/// With focus on none of them, on is the first and back the last.
pub proof fn focus_walks_to_the_one_beside(
    before: ViewTree,
    forward: bool,
    at: Option<int>,
    focused: Seq<u64>,
    fresh: u64,
    after: ViewTree,
    effect: Result<Effect, String>,
) -> (next: int)
    requires
        executed(
            before,
            if forward {
                WidgetCommand::FocusNext
            } else {
                WidgetCommand::FocusPrevious
            },
            Ok(()),
            focused,
            fresh,
            after,
            effect,
        ),
        match at {
            Some(at) => 0 <= at < before.ring().len() && before.has_focus(
                before.ring()[at],
                focused,
            ) && forall|i: int|
                0 <= i < at ==> !before.has_focus(#[trigger] before.ring()[i], focused),
            None => forall|i: int|
                0 <= i < before.ring().len() ==> !before.has_focus(
                    #[trigger] before.ring()[i],
                    focused,
                ),
        },
    ensures
        before.ring().len() == 0 ==> after == before && effect == Ok::<Effect, String>(
            Effect::Nothing,
        ),
        before.ring().len() > 0 ==> 0 <= next < before.ring().len() && exists|
            command: WidgetCommand,
        |
            command is Focus && #[trigger] commanded(
                before,
                after,
                before.ring()[next],
                command,
                fresh,
                effect,
            ),
        before.ring().len() > 0 && at is None ==> next == (if forward {
            0
        } else {
            before.ring().len() - 1
        }),
        before.ring().len() > 0 && at is Some && forward ==> next == (if at->0 + 1
            == before.ring().len() {
            0
        } else {
            at->0 + 1
        }),
        before.ring().len() > 0 && at is Some && !forward ==> next == (if at->0 == 0 {
            before.ring().len() - 1
        } else {
            at->0 - 1
        }),
{
    let ring = before.ring();
    let len = ring.len() as int;
    current_is(before, ring, focused, 0, at);
    let next = beside(at, len, forward);
    if let Some(at) = at {
        if at + 1 == len {
            vstd::arithmetic::div_mod::lemma_mod_self_0(len);
        } else {
            vstd::arithmetic::div_mod::lemma_small_mod((at + 1) as nat, len as nat);
        }
        if at == 0 {
            vstd::arithmetic::div_mod::lemma_small_mod((len - 1) as nat, len as nat);
        } else {
            vstd::arithmetic::div_mod::lemma_mod_add_multiples_vanish(at - 1, len);
            vstd::arithmetic::div_mod::lemma_small_mod((at - 1) as nat, len as nat);
        }
    }
    assert(walked_focus(before, after, forward, focused, fresh, effect));
    next
}

proof fn first_row_of(rows: Seq<VirtualRow>, key: u64, from: int)
    requires
        0 <= from <= rows.len(),
    ensures
        match row_of_key(rows, key, from) {
            Some(row) => from <= row < rows.len() && crate::outside::ends_with(
                rows[row].key@,
                row_suffix(key),
            ) && forall|i: int|
                from <= i < row ==> !crate::outside::ends_with(
                    (#[trigger] rows[i]).key@,
                    row_suffix(key),
                ),
            None => forall|i: int|
                from <= i < rows.len() ==> !crate::outside::ends_with(
                    (#[trigger] rows[i]).key@,
                    row_suffix(key),
                ),
        },
    decreases rows.len() - from,
{
    if from < rows.len() && !crate::outside::ends_with(rows[from].key@, row_suffix(key)) {
        first_row_of(rows, key, from + 1);
    }
}

proof fn a_suffix_is_of_one_key(above: Seq<char>, key: u64, other: u64)
    ensures
        crate::outside::ends_with(
            above + "/@row:"@ + crate::text::decimal(key as nat),
            row_suffix(other),
        ) <==> key == other,
{
    reveal_strlit("/@row:");
    let mark = "/@row:"@;
    let mine = crate::text::decimal(key as nat);
    let theirs = crate::text::decimal(other as nat);
    let text = above + mark + mine;
    let tail = mark + theirs;
    crate::text::a_decimal_is_of_one_number(key as nat, other as nat);
    crate::backend::listener::a_decimal_is_digits(key as nat);
    crate::backend::listener::a_decimal_is_digits(other as nat);
    if key == other {
        assert(text.skip(text.len() - tail.len()) =~= tail);
    } else if crate::outside::ends_with(text, tail) {
        let shift = text.len() - tail.len();
        let end = text.skip(shift);
        if mine.len() == theirs.len() {
            assert forall|i: int| 0 <= i < mine.len() implies mine[i] == theirs[i] by {
                assert(end[6 + i] == tail[6 + i]);
            }
            assert(mine =~= theirs);
        } else if mine.len() > theirs.len() {
            assert(end[5] == tail[5]);
            assert(tail[5] == ':');
            assert(text[shift + 5] == mine[shift + 5 - above.len() - 6]);
        } else {
            let colon = above.len() + 5 - shift;
            assert(text[above.len() as int + 5] == ':');
            assert(end[colon] == tail[colon]);
            assert(tail[colon] == theirs[colon - 6]);
        }
    }
}

/// A row is found by the number the guest knows it by: the row brought into
/// view is the first whose key ends in that number, and a key that ends in
/// another number is never taken for it.
pub proof fn a_row_is_found_by_its_number(
    rows: Seq<VirtualRow>,
    key: u64,
    nth: int,
    above: Seq<char>,
    number: u64,
)
    requires
        0 <= nth < rows.len(),
        rows[nth].key@ == above + "/@row:"@ + crate::text::decimal(number as nat),
    ensures
        row_of_key(rows, key, 0) == Some(nth) ==> number == key,
        number == key ==> (row_of_key(rows, key, 0) matches Some(row) && row <= nth),
{
    a_suffix_is_of_one_key(above, number, key);
    first_row_of(rows, key, 0);
}

proof fn anchors_are(all: Seq<(Node, Seq<u64>)>, path: Seq<u64>, nth: int)
    requires
        -1 <= nth < all.len(),
        nth >= 0 ==> all[nth].1 == path && all[nth].0.kind is Scroll,
        forall|i: int|
            nth < i < all.len() ==> !((#[trigger] all[i]).1 == path && all[i].0.kind is Scroll),
    ensures
        nth >= 0 ==> anchors_at(all, path) == (
            all[nth].0.kind->Scroll_anchor_x,
            all[nth].0.kind->Scroll_anchor_y,
        ),
        nth < 0 ==> anchors_at(all, path) == (ScrollAnchor::Start, ScrollAnchor::Start),
    decreases all.len(),
{
    if all.len() > 0 && nth != all.len() - 1 {
        assert(!(all[all.len() - 1].1 == path && all[all.len() - 1].0.kind is Scroll));
        assert forall|i: int| nth < i < all.drop_last().len() implies !((
        #[trigger] all.drop_last()[i]).1 == path && all.drop_last()[i].0.kind is Scroll) by {
            assert(all[i] == all.drop_last()[i]);
        }
        anchors_are(all.drop_last(), path, nth);
    }
}

/// What a scrolling command does to a virtual column: it asks the column's
/// list for what the command names, measured from the end where the column is
/// anchored there; and a row is brought into view.
pub proof fn a_column_scrolls_as_it_is_told(
    before: ViewTree,
    command: WidgetCommand,
    target: Seq<u64>,
    path: Seq<u64>,
    focused: Seq<u64>,
    fresh: u64,
    after: ViewTree,
    effect: Result<Effect, String>,
)
    requires
        executed(before, command, Ok(()), focused, fresh, after, effect),
        resolved(before.root, target) == Some(path),
        before.lists@.dom().contains(path),
    ensures
        ({
            let list = before.lists@[path];
            let sense = if list.anchor is End {
                Sense::FromEnd
            } else {
                Sense::FromStart
            };
            let asks = |request: ScrollRequest|
                {
                    &&& effect == Ok::<Effect, String>(
                        Effect::ScrollList { list: list.state, request, sense },
                    )
                    &&& after == (ViewTree { stale: true, ..before })
                };
            &&& command matches WidgetCommand::Snap { target: at } ==> at@ == target ==> asks(
                ScrollRequest::Relative,
            )
            &&& command matches WidgetCommand::SnapEnd { target: at } ==> at@ == target ==> asks(
                ScrollRequest::End,
            )
            &&& command matches WidgetCommand::ScrollTo { target: at } ==> at@ == target ==> asks(
                ScrollRequest::Absolute,
            )
            &&& command matches WidgetCommand::ScrollBy { target: at } ==> at@ == target ==> asks(
                ScrollRequest::By,
            )
            &&& command matches WidgetCommand::ScrollToKey { target: at, key } ==> at@ == target ==> {
                &&& effect matches Ok(Effect::Reveal { list: shown, row }) && shown == list.state && (
                match row_of_key(list.rows@, key, 0) {
                    Some(nth) => row == Some(nth as usize),
                    None => row is None,
                })
                &&& after == (ViewTree { stale: true, ..before })
            }
        }),
{
}

/// What a scrolling command does to a pane: it scrolls by the handle kept for
/// it, each axis measured from the end where the last scroll node drawn there
/// anchors it. A pane has no rows to bring into view, and where neither a
/// column nor a pane stands there is nothing to do.
pub proof fn a_pane_scrolls_as_it_is_told(
    before: ViewTree,
    command: WidgetCommand,
    target: Seq<u64>,
    path: Seq<u64>,
    nth: int,
    focused: Seq<u64>,
    fresh: u64,
    after: ViewTree,
    effect: Result<Effect, String>,
)
    requires
        executed(before, command, Ok(()), focused, fresh, after, effect),
        resolved(before.root, target) == Some(path),
        !before.lists@.dom().contains(path),
        -1 <= nth < crate::render::tree::visits(before.root, Seq::empty()).len(),
        nth >= 0 ==> crate::render::tree::visits(before.root, Seq::empty())[nth].1 == path
            && crate::render::tree::visits(before.root, Seq::empty())[nth].0.kind is Scroll,
        forall|i: int|
            nth < i < crate::render::tree::visits(before.root, Seq::empty()).len() ==> !((
            #[trigger] crate::render::tree::visits(before.root, Seq::empty())[i]).1 == path
                && crate::render::tree::visits(before.root, Seq::empty())[i].0.kind is Scroll),
    ensures
        ({
            let kind = crate::render::tree::visits(before.root, Seq::empty())[nth].0.kind;
            let x = if nth >= 0 && kind->Scroll_anchor_x is End {
                Sense::FromEnd
            } else {
                Sense::FromStart
            };
            let y = if nth >= 0 && kind->Scroll_anchor_y is End {
                Sense::FromEnd
            } else {
                Sense::FromStart
            };
            let asks = |request: ScrollRequest|
                {
                    if before.scrolls@.dom().contains(path) {
                        &&& effect == Ok::<Effect, String>(
                            Effect::ScrollPane { scroll: before.scrolls@[path], request, x, y },
                        )
                        &&& after == (ViewTree { stale: true, ..before })
                    } else {
                        effect == Ok::<Effect, String>(Effect::Nothing) && after == before
                    }
                };
            &&& command matches WidgetCommand::Snap { target: at } ==> at@ == target ==> asks(
                ScrollRequest::Relative,
            )
            &&& command matches WidgetCommand::SnapEnd { target: at } ==> at@ == target ==> asks(
                ScrollRequest::End,
            )
            &&& command matches WidgetCommand::ScrollTo { target: at } ==> at@ == target ==> asks(
                ScrollRequest::Absolute,
            )
            &&& command matches WidgetCommand::ScrollBy { target: at } ==> at@ == target ==> asks(
                ScrollRequest::By,
            )
            &&& command matches WidgetCommand::ScrollToKey { target: at, .. } ==> at@ == target
                ==> effect == Ok::<Effect, String>(Effect::Nothing) && after == before
        }),
{
    anchors_are(crate::render::tree::visits(before.root, Seq::empty()), path, nth);
}

// ---------- the next tree ----------
/// A picture whose bytes came with the tree: to be kept under its hash.
#[derive(Clone, Copy, Debug, PartialEq, Eq, Structural)]
pub enum Picture {
    Image(u64),
    Vector(u64),
}

/// The picture whose bytes `node` brings.
pub open spec fn brought(node: Node) -> Option<Picture> {
    match node.kind {
        Kind::Image { hash, fresh: true, .. } => Some(Picture::Image(hash)),
        Kind::ImageViewer { hash, fresh: true } => Some(Picture::Image(hash)),
        Kind::Svg { data: Some((hash, true)), .. } => Some(Picture::Vector(hash)),
        _ => None,
    }
}

/// The pictures `all` bring, in order.
pub open spec fn pictures(all: Seq<(Node, Seq<u64>)>) -> Seq<Picture>
    decreases all.len(),
{
    if all.len() == 0 {
        Seq::empty()
    } else {
        match brought(all.last().0) {
            Some(picture) => pictures(all.drop_last()).push(picture),
            None => pictures(all.drop_last()),
        }
    }
}

/// A sensor as the tree now draws it: a new reset forgets what was measured,
/// and its reports go where this tree says.
pub open spec fn heard(sensor: Sensor, kind: Kind) -> Sensor {
    match kind {
        Kind::Sensor { reset, on_show, on_resize, on_hide } => Sensor {
            reset,
            size: if sensor.reset != reset {
                None
            } else {
                sensor.size
            },
            pending: if sensor.reset != reset {
                None
            } else {
                sensor.pending
            },
            on_show,
            on_resize,
            on_hide,
        },
        _ => sensor,
    }
}

/// The sensors on record, each as `all` draw it.
pub open spec fn sensed(sensors: Map<Seq<u64>, Sensor>, all: Seq<(Node, Seq<u64>)>) -> Map<
    Seq<u64>,
    Sensor,
>
    decreases all.len(),
{
    if all.len() == 0 {
        sensors
    } else {
        let before = sensed(sensors, all.drop_last());
        let (node, path) = all.last();
        if node.kind is Sensor && before.dom().contains(path) {
            before.insert(path, heard(before[path], node.kind))
        } else {
            before
        }
    }
}

proof fn sensed_keeps(
    sensors: Map<Seq<u64>, Sensor>,
    all: Seq<(Node, Seq<u64>)>,
    path: Seq<u64>,
)
    requires
        sensors.dom().contains(path),
        forall|i: int|
            0 <= i < all.len() && (#[trigger] all[i]).1 == path && all[i].0.kind is Sensor
                ==> all[i].0.kind->reset == sensors[path].reset,
    ensures
        sensed(sensors, all).dom().contains(path),
        sensed(sensors, all)[path].reset == sensors[path].reset,
        sensed(sensors, all)[path].size == sensors[path].size,
        sensed(sensors, all)[path].pending == sensors[path].pending,
    decreases all.len(),
{
    if all.len() > 0 {
        assert forall|i: int|
            0 <= i < all.drop_last().len() && (#[trigger] all.drop_last()[i]).1 == path
                && all.drop_last()[i].0.kind is Sensor implies all.drop_last()[i].0.kind->reset
            == sensors[path].reset by {
            assert(all[i] == all.drop_last()[i]);
        }
        sensed_keeps(sensors, all.drop_last(), path);
        assert(all.last() == all[all.len() - 1]);
    }
}

/// A sensor the next tree draws with the reset it has keeps what it measured.
pub proof fn a_sensor_keeps_its_measure_until_reset(
    sensors: Map<Seq<u64>, Sensor>,
    root: Node,
    path: Seq<u64>,
)
    requires
        sensors.dom().contains(path),
        crate::render::tree::census(root, Role::Sensor).contains(path),
        forall|i: int|
            0 <= i < crate::render::tree::visits(root, Seq::empty()).len() && (
            #[trigger] crate::render::tree::visits(root, Seq::empty())[i]).1 == path
                && crate::render::tree::visits(root, Seq::empty())[i].0.kind is Sensor
                ==> crate::render::tree::visits(root, Seq::empty())[i].0.kind->reset
                == sensors[path].reset,
    ensures
        ({
            let kept = sensed(sensors, crate::render::tree::visits(root, Seq::empty())).restrict(
                crate::render::tree::census(root, Role::Sensor),
            );
            kept.dom().contains(path) && kept[path].size == sensors[path].size && kept[path].pending
                == sensors[path].pending
        }),
{
    sensed_keeps(sensors, crate::render::tree::visits(root, Seq::empty()), path);
}

fn brought_by(node: &Node) -> (picture: Option<Picture>)
    ensures
        picture == brought(*node),
{
    match &node.kind {
        Kind::Image { hash, fresh, .. } => if *fresh {
            Some(Picture::Image(*hash))
        } else {
            None
        },
        Kind::ImageViewer { hash, fresh } => if *fresh {
            Some(Picture::Image(*hash))
        } else {
            None
        },
        Kind::Svg { data, .. } => match data {
            Some((hash, fresh)) => if *fresh {
                Some(Picture::Vector(*hash))
            } else {
                None
            },
            None => None,
        },
        _ => None,
    }
}

fn bring(walked: &Vec<Visit>) -> (brought: Vec<Picture>)
    ensures
        brought@ == pictures(crate::render::tree::seen(walked@)),
{
    let ghost all = crate::render::tree::seen(walked@);
    let mut brought: Vec<Picture> = Vec::new();
    let mut nth: usize = 0;
    while nth < walked.len()
        invariant
            all == crate::render::tree::seen(walked@),
            nth <= walked@.len(),
            brought@ == pictures(all.take(nth as int)),
        decreases walked@.len() - nth,
    {
        assert(all.take(nth + 1).drop_last() =~= all.take(nth as int));
        assert(all.take(nth + 1).last() == all[nth as int]);
        assert(all[nth as int].0 == *walked@[nth as int].node);
        if let Some(picture) = brought_by(walked[nth].node) {
            brought.push(picture);
        }
        nth += 1;
    }
    assert(all.take(nth as int) =~= all);
    brought
}

fn sense_all(sensors: &mut Keyed<AuthoredPath, Sensor>, walked: &Vec<Visit>)
    ensures
        final(sensors)@ == sensed(old(sensors)@, crate::render::tree::seen(walked@)),
{
    let ghost all = crate::render::tree::seen(walked@);
    let ghost before = sensors@;
    let mut nth: usize = 0;
    while nth < walked.len()
        invariant
            all == crate::render::tree::seen(walked@),
            nth <= walked@.len(),
            sensors@ == sensed(before, all.take(nth as int)),
        decreases walked@.len() - nth,
    {
        assert(all.take(nth + 1).drop_last() =~= all.take(nth as int));
        assert(all.take(nth + 1).last() == all[nth as int]);
        assert(all[nth as int] == (*walked@[nth as int].node, walked@[nth as int].path@));
        if let Kind::Sensor { reset, on_show, on_resize, on_hide } = &walked[nth].node.kind {
            let known: Option<Sensor> = match sensors.get(&walked[nth].path) {
                Some(sensor) => Some(*sensor),
                None => None,
            };
            if let Some(sensor) = known {
                let same = sensor.reset == *reset;
                let next = Sensor {
                    reset: *reset,
                    size: if same {
                        sensor.size
                    } else {
                        None
                    },
                    pending: if same {
                        sensor.pending
                    } else {
                        None
                    },
                    on_show: *on_show,
                    on_resize: *on_resize,
                    on_hide: *on_hide,
                };
                sensors.insert(path_of(walked[nth].path.as_slice()), next);
            }
        }
        nth += 1;
    }
    assert(all.take(nth as int) =~= all);
}

fn count_focuses(root: &Node, walked: &Vec<Visit>) -> (ids: KeySet<u64>)
    requires
        crate::render::tree::seen(walked@) == crate::render::tree::visits(*root, Seq::empty()),
    ensures
        ids@ == crate::render::tree::named_focuses(*root),
{
    let ghost all = crate::render::tree::visits(*root, Seq::empty());
    let mut ids: KeySet<u64> = KeySet::new();
    let mut nth: usize = 0;
    while nth < walked.len()
        invariant
            crate::render::tree::seen(walked@) == all,
            nth <= walked@.len(),
            forall|id: u64|
                #[trigger] ids@.contains(id) ==> exists|i: int|
                    0 <= i < all.len() && crate::render::tree::named_focus((#[trigger] all[i]).0)
                        == Some(id),
            forall|i: int|
                0 <= i < nth ==> (crate::render::tree::named_focus((#[trigger] all[i]).0) matches Some(
                    id,
                ) ==> ids@.contains(id)),
        decreases walked@.len() - nth,
    {
        assert(all[nth as int].0 == *walked@[nth as int].node);
        if let Some(id) = walked[nth].node.focus() {
            ids.insert(id);
            assert(crate::render::tree::named_focus(all[nth as int].0) == Some(id));
        }
        nth += 1;
    }
    assert(ids@ =~= crate::render::tree::named_focuses(*root));
    ids
}

fn count_uniform_lists(root: &Node, walked: &Vec<Visit>) -> (paths: KeySet<AuthoredPath>)
    requires
        crate::render::tree::seen(walked@) == crate::render::tree::visits(*root, Seq::empty()),
    ensures
        paths@ == crate::render::tree::uniform_list_paths(*root),
{
    let ghost all = crate::render::tree::visits(*root, Seq::empty());
    let mut paths: KeySet<AuthoredPath> = KeySet::new();
    let mut nth: usize = 0;
    while nth < walked.len()
        invariant
            crate::render::tree::seen(walked@) == all,
            nth <= walked@.len(),
            forall|path: Seq<u64>|
                #[trigger] paths@.contains(path) ==> exists|i: int|
                    0 <= i < all.len() && ((#[trigger] all[i]).0.kind matches Kind::UniformList {
                        path: own,
                        ..
                    } && own@ == path),
            forall|i: int|
                0 <= i < nth ==> ((#[trigger] all[i]).0.kind matches Kind::UniformList {
                    path: own,
                    ..
                } ==> paths@.contains(own@)),
        decreases walked@.len() - nth,
    {
        assert(all[nth as int].0 == *walked@[nth as int].node);
        if let Kind::UniformList { path, .. } = &walked[nth].node.kind {
            paths.insert(path_of(path.as_slice()));
            assert(all[nth as int].0.kind is UniformList);
        }
        nth += 1;
    }
    assert(paths@ =~= crate::render::tree::uniform_list_paths(*root));
    paths
}

fn count_variable_lists(root: &Node, walked: &Vec<Visit>) -> (keys: KeySet<VariableListKey>)
    requires
        crate::render::tree::seen(walked@) == crate::render::tree::visits(*root, Seq::empty()),
    ensures
        keys@ == crate::render::tree::variable_list_keys(*root),
{
    let ghost all = crate::render::tree::visits(*root, Seq::empty());
    let mut keys: KeySet<VariableListKey> = KeySet::new();
    let mut nth: usize = 0;
    while nth < walked.len()
        invariant
            crate::render::tree::seen(walked@) == all,
            nth <= walked@.len(),
            forall|key: (Seq<u64>, u64)|
                #[trigger] keys@.contains(key) ==> exists|i: int|
                    0 <= i < all.len() && ((#[trigger] all[i]).0.kind matches Kind::List {
                        path: own,
                        state,
                    } && (own@, state) == key),
            forall|i: int|
                0 <= i < nth ==> ((#[trigger] all[i]).0.kind matches Kind::List { path: own, state }
                    ==> keys@.contains((own@, state))),
        decreases walked@.len() - nth,
    {
        assert(all[nth as int].0 == *walked@[nth as int].node);
        if let Kind::List { path, state } = &walked[nth].node.kind {
            let key = VariableListKey { path: path_of(path.as_slice()), state: *state };
            keys.insert(key);
            assert(all[nth as int].0.kind is List);
        }
        nth += 1;
    }
    assert(keys@ =~= crate::render::tree::variable_list_keys(*root));
    keys
}

/// Whether `root`, drawn in place of what `before` drew, leaves the view as
/// `after` and brings the pictures `brought`.
pub open spec fn replaced(
    before: ViewTree,
    after: ViewTree,
    root: Node,
    brought: Seq<Picture>,
) -> bool {
    &&& brought == pictures(crate::render::tree::visits(root, Seq::empty()))
    &&& after.root == root
    &&& after.stale
    &&& after.bounds@ == before.bounds@.restrict(
        crate::render::tree::census(root, Role::Mounted),
    )
    &&& after.focus_targets@ == before.focus_targets@.restrict(
        crate::render::tree::census(root, Role::Focusable),
    )
    &&& after.guest_focus_targets@ == before.guest_focus_targets@.restrict(
        crate::render::tree::named_focuses(root),
    )
    &&& after.fields@ == before.fields@.restrict(
        crate::render::tree::census(root, Role::Field),
    )
    &&& after.scrolls@ == before.scrolls@.restrict(
        crate::render::tree::census(root, Role::Scroller),
    )
    &&& after.lists@ == before.lists@.restrict(
        crate::render::tree::census(root, Role::Scroller),
    )
    &&& after.scroll_positions@ == before.scroll_positions@.restrict(
        crate::render::tree::census(root, Role::Scroller),
    )
    &&& after.uniform_lists@ == before.uniform_lists@.restrict(
        crate::render::tree::uniform_list_paths(root),
    )
    &&& after.uniform_rows@ == Map::<Seq<u64>, Vec<u64>>::empty()
    &&& after.variable_lists@ == before.variable_lists@.restrict(
        crate::render::tree::variable_list_keys(root),
    )
    &&& after.variable_rows@ == Map::<(Seq<u64>, u64), Vec<u64>>::empty()
    &&& after.pickers@ == before.pickers@.restrict(
        crate::render::tree::census(root, Role::Picker),
    )
    &&& after.drags@ == before.drags@.restrict(
        crate::render::tree::census(root, Role::Drag),
    )
    &&& after.dialogs@ == before.dialogs@.restrict(
        crate::render::tree::census(root, Role::Dialog),
    )
    &&& after.containers@ == before.containers@.restrict(
        crate::render::tree::census(root, Role::Responsive),
    )
    &&& after.ranges@ == before.ranges@.restrict(
        crate::render::tree::census(root, Role::Retained),
    )
    &&& after.editors@ == before.editors@.restrict(
        crate::render::tree::census(root, Role::Retained),
    )
    &&& after.viewers@ == before.viewers@.restrict(
        crate::render::tree::census(root, Role::Retained),
    )
    &&& after.sensors@ == sensed(
        before.sensors@,
        crate::render::tree::visits(root, Seq::empty()),
    ).restrict(crate::render::tree::census(root, Role::Sensor))
    &&& after == (ViewTree {
        mounted: before.mounted,
        editor_store: before.editor_store,
        presentation: before.presentation,
        authored_path: before.authored_path,
        render_index: before.render_index,
        user_activation: before.user_activation,
        ..after
    })
}

/// An editor, a range and a viewer stay exactly where the next tree draws a
/// slider, a surface, an editor or a picture to pan.
pub proof fn an_editor_stays_where_an_editor_is_drawn(
    before: ViewTree,
    after: ViewTree,
    root: Node,
    brought: Seq<Picture>,
)
    requires
        replaced(before, after, root, brought),
    ensures
        forall|path: Seq<u64>| #[trigger]
            after.editors@.dom().contains(path) <==> before.editors@.dom().contains(path) && exists|i: int|
                0 <= i < crate::render::tree::visits(root, Seq::empty()).len() && (
                #[trigger] crate::render::tree::visits(root, Seq::empty())[i]).1 == path && {
                    let node = crate::render::tree::visits(root, Seq::empty())[i].0;
                    node.kind is Editor || node.kind is Slider || node.kind is Surface || node.kind is ImageViewer
                },
        forall|path: Seq<u64>| #[trigger]
            after.editors@.dom().contains(path) ==> after.editors@[path] == before.editors@[path],
        forall|path: Seq<u64>| #[trigger]
            after.ranges@.dom().contains(path) <==> before.ranges@.dom().contains(path) && exists|i: int|
                0 <= i < crate::render::tree::visits(root, Seq::empty()).len() && (
                #[trigger] crate::render::tree::visits(root, Seq::empty())[i]).1 == path && {
                    let node = crate::render::tree::visits(root, Seq::empty())[i].0;
                    node.kind is Editor || node.kind is Slider || node.kind is Surface || node.kind is ImageViewer
                },
        forall|path: Seq<u64>| #[trigger]
            after.ranges@.dom().contains(path) ==> after.ranges@[path] == before.ranges@[path],
        forall|path: Seq<u64>| #[trigger]
            after.viewers@.dom().contains(path) <==> before.viewers@.dom().contains(path) && exists|i: int|
                0 <= i < crate::render::tree::visits(root, Seq::empty()).len() && (
                #[trigger] crate::render::tree::visits(root, Seq::empty())[i]).1 == path && {
                    let node = crate::render::tree::visits(root, Seq::empty())[i].0;
                    node.kind is Editor || node.kind is Slider || node.kind is Surface || node.kind is ImageViewer
                },
        forall|path: Seq<u64>| #[trigger]
            after.viewers@.dom().contains(path) ==> after.viewers@[path] == before.viewers@[path],
{
}

/// A field stays exactly where an input is drawn, a picker where a pick list or
/// a combo box is, a drag where a handle to resize by is.
pub proof fn a_field_stays_where_a_field_is_drawn(
    before: ViewTree,
    after: ViewTree,
    root: Node,
    brought: Seq<Picture>,
)
    requires
        replaced(before, after, root, brought),
    ensures
        forall|path: Seq<u64>| #[trigger]
            after.fields@.dom().contains(path) <==> before.fields@.dom().contains(path) && exists|i: int|
                0 <= i < crate::render::tree::visits(root, Seq::empty()).len() && (
                #[trigger] crate::render::tree::visits(root, Seq::empty())[i]).1 == path && {
                    let node = crate::render::tree::visits(root, Seq::empty())[i].0;
                    node.kind is Input
                },
        forall|path: Seq<u64>| #[trigger]
            after.fields@.dom().contains(path) ==> after.fields@[path] == before.fields@[path],
        forall|path: Seq<u64>| #[trigger]
            after.pickers@.dom().contains(path) <==> before.pickers@.dom().contains(path) && exists|i: int|
                0 <= i < crate::render::tree::visits(root, Seq::empty()).len() && (
                #[trigger] crate::render::tree::visits(root, Seq::empty())[i]).1 == path && {
                    let node = crate::render::tree::visits(root, Seq::empty())[i].0;
                    node.kind is PickList || node.kind is ComboBox
                },
        forall|path: Seq<u64>| #[trigger]
            after.pickers@.dom().contains(path) ==> after.pickers@[path] == before.pickers@[path],
        forall|path: Seq<u64>| #[trigger]
            after.drags@.dom().contains(path) <==> before.drags@.dom().contains(path) && exists|i: int|
                0 <= i < crate::render::tree::visits(root, Seq::empty()).len() && (
                #[trigger] crate::render::tree::visits(root, Seq::empty())[i]).1 == path && {
                    let node = crate::render::tree::visits(root, Seq::empty())[i].0;
                    node.kind is ResizeHandle
                },
        forall|path: Seq<u64>| #[trigger]
            after.drags@.dom().contains(path) ==> after.drags@[path] == before.drags@[path],
{
}

/// A scroller's handle, its native list and the record of where it stood stay
/// exactly where a scroller is drawn, or a container of its own id that
/// scrolls.
pub proof fn a_scroller_stays_where_a_scroller_is_drawn(
    before: ViewTree,
    after: ViewTree,
    root: Node,
    brought: Seq<Picture>,
)
    requires
        replaced(before, after, root, brought),
    ensures
        forall|path: Seq<u64>| #[trigger]
            after.scrolls@.dom().contains(path) <==> before.scrolls@.dom().contains(path) && exists|i: int|
                0 <= i < crate::render::tree::visits(root, Seq::empty()).len() && (
                #[trigger] crate::render::tree::visits(root, Seq::empty())[i]).1 == path && {
                    let node = crate::render::tree::visits(root, Seq::empty())[i].0;
                    node.kind is Scroll || node.kind is Container && node.kind->scrolls && node.id is Some
                },
        forall|path: Seq<u64>| #[trigger]
            after.scrolls@.dom().contains(path) ==> after.scrolls@[path] == before.scrolls@[path],
        forall|path: Seq<u64>| #[trigger]
            after.lists@.dom().contains(path) <==> before.lists@.dom().contains(path) && exists|i: int|
                0 <= i < crate::render::tree::visits(root, Seq::empty()).len() && (
                #[trigger] crate::render::tree::visits(root, Seq::empty())[i]).1 == path && {
                    let node = crate::render::tree::visits(root, Seq::empty())[i].0;
                    node.kind is Scroll || node.kind is Container && node.kind->scrolls && node.id is Some
                },
        forall|path: Seq<u64>| #[trigger]
            after.lists@.dom().contains(path) ==> after.lists@[path] == before.lists@[path],
        forall|path: Seq<u64>| #[trigger]
            after.scroll_positions@.dom().contains(path) <==> before.scroll_positions@.dom().contains(path) && exists|i: int|
                0 <= i < crate::render::tree::visits(root, Seq::empty()).len() && (
                #[trigger] crate::render::tree::visits(root, Seq::empty())[i]).1 == path && {
                    let node = crate::render::tree::visits(root, Seq::empty())[i].0;
                    node.kind is Scroll || node.kind is Container && node.kind->scrolls && node.id is Some
                },
        forall|path: Seq<u64>| #[trigger]
            after.scroll_positions@.dom().contains(path) ==> after.scroll_positions@[path] == before.scroll_positions@[path],
{
}

/// Bounds stay wherever anything is drawn, a container's focus handle where a
/// container of its own id is, a dialog where a named layer is, and what a
/// responsive node measured where one is.
pub proof fn what_is_measured_stays_where_it_is_drawn(
    before: ViewTree,
    after: ViewTree,
    root: Node,
    brought: Seq<Picture>,
)
    requires
        replaced(before, after, root, brought),
    ensures
        forall|path: Seq<u64>| #[trigger]
            after.bounds@.dom().contains(path) <==> before.bounds@.dom().contains(path) && exists|i: int|
                0 <= i < crate::render::tree::visits(root, Seq::empty()).len() && (
                #[trigger] crate::render::tree::visits(root, Seq::empty())[i]).1 == path && {
                    let node = crate::render::tree::visits(root, Seq::empty())[i].0;
                    true
                },
        forall|path: Seq<u64>| #[trigger]
            after.bounds@.dom().contains(path) ==> after.bounds@[path] == before.bounds@[path],
        forall|path: Seq<u64>| #[trigger]
            after.focus_targets@.dom().contains(path) <==> before.focus_targets@.dom().contains(path) && exists|i: int|
                0 <= i < crate::render::tree::visits(root, Seq::empty()).len() && (
                #[trigger] crate::render::tree::visits(root, Seq::empty())[i]).1 == path && {
                    let node = crate::render::tree::visits(root, Seq::empty())[i].0;
                    node.kind is Container && node.id is Some
                },
        forall|path: Seq<u64>| #[trigger]
            after.focus_targets@.dom().contains(path) ==> after.focus_targets@[path] == before.focus_targets@[path],
        forall|path: Seq<u64>| #[trigger]
            after.dialogs@.dom().contains(path) <==> before.dialogs@.dom().contains(path) && exists|i: int|
                0 <= i < crate::render::tree::visits(root, Seq::empty()).len() && (
                #[trigger] crate::render::tree::visits(root, Seq::empty())[i]).1 == path && {
                    let node = crate::render::tree::visits(root, Seq::empty())[i].0;
                    node.kind is Overlay && node.kind->named
                },
        forall|path: Seq<u64>| #[trigger]
            after.dialogs@.dom().contains(path) ==> after.dialogs@[path] == before.dialogs@[path],
        forall|path: Seq<u64>| #[trigger]
            after.containers@.dom().contains(path) <==> before.containers@.dom().contains(path) && exists|i: int|
                0 <= i < crate::render::tree::visits(root, Seq::empty()).len() && (
                #[trigger] crate::render::tree::visits(root, Seq::empty())[i]).1 == path && {
                    let node = crate::render::tree::visits(root, Seq::empty())[i].0;
                    node.kind is Responsive
                },
        forall|path: Seq<u64>| #[trigger]
            after.containers@.dom().contains(path) ==> after.containers@[path] == before.containers@[path],
{
}

/// A guest's focus handle stays exactly where a node that names it is drawn, and
/// a native list exactly where the list it is of is: by its own path, and one
/// of rows of their own heights by its state too. The rows of both wait to be
/// asked for again.
pub proof fn lists_and_handles_stay_where_they_are_named(
    before: ViewTree,
    after: ViewTree,
    root: Node,
    brought: Seq<Picture>,
)
    requires
        replaced(before, after, root, brought),
    ensures
        forall|id: u64| #[trigger]
            after.guest_focus_targets@.dom().contains(id)
                <==> before.guest_focus_targets@.dom().contains(id) && exists|i: int|
                0 <= i < crate::render::tree::visits(root, Seq::empty()).len() && (match (
                #[trigger] crate::render::tree::visits(root, Seq::empty())[i]).0.kind {
                    Kind::Container { focus, .. } => focus == Some(id),
                    Kind::Image { focus, .. } => focus == Some(id),
                    Kind::Svg { focus, .. } => focus == Some(id),
                    Kind::UniformList { focus, .. } => focus == Some(id),
                    _ => false,
                }),
        forall|id: u64| #[trigger]
            after.guest_focus_targets@.dom().contains(id) ==> after.guest_focus_targets@[id]
                == before.guest_focus_targets@[id],
        forall|path: Seq<u64>| #[trigger]
            after.uniform_lists@.dom().contains(path) <==> before.uniform_lists@.dom().contains(
                path,
            ) && exists|i: int|
                0 <= i < crate::render::tree::visits(root, Seq::empty()).len() && ((
                #[trigger] crate::render::tree::visits(root, Seq::empty())[i]).0.kind matches Kind::UniformList {
                    path: own,
                    ..
                } && own@ == path),
        forall|path: Seq<u64>| #[trigger]
            after.uniform_lists@.dom().contains(path) ==> after.uniform_lists@[path]
                == before.uniform_lists@[path],
        forall|key: (Seq<u64>, u64)| #[trigger]
            after.variable_lists@.dom().contains(key) <==> before.variable_lists@.dom().contains(
                key,
            ) && exists|i: int|
                0 <= i < crate::render::tree::visits(root, Seq::empty()).len() && ((
                #[trigger] crate::render::tree::visits(root, Seq::empty())[i]).0.kind matches Kind::List {
                    path: own,
                    state,
                } && own@ == key.0 && state == key.1),
        forall|key: (Seq<u64>, u64)| #[trigger]
            after.variable_lists@.dom().contains(key) ==> after.variable_lists@[key]
                == before.variable_lists@[key],
        forall|path: Seq<u64>| !(#[trigger] after.uniform_rows@.dom().contains(path)),
        forall|key: (Seq<u64>, u64)| !(#[trigger] after.variable_rows@.dom().contains(key)),
{
    let all = crate::render::tree::visits(root, Seq::empty());
    assert forall|id: u64| #[trigger]
        after.guest_focus_targets@.dom().contains(id)
            <==> before.guest_focus_targets@.dom().contains(id) && exists|i: int|
            0 <= i < all.len() && (match (#[trigger] all[i]).0.kind {
                Kind::Container { focus, .. } => focus == Some(id),
                Kind::Image { focus, .. } => focus == Some(id),
                Kind::Svg { focus, .. } => focus == Some(id),
                Kind::UniformList { focus, .. } => focus == Some(id),
                _ => false,
            }) by {
        assert(crate::render::tree::named_focuses(root).contains(id) <==> exists|i: int|
            0 <= i < all.len() && crate::render::tree::named_focus((#[trigger] all[i]).0) == Some(
                id,
            ));
    }
}

proof fn sensed_once(
    sensors: Map<Seq<u64>, Sensor>,
    all: Seq<(Node, Seq<u64>)>,
    path: Seq<u64>,
    nth: int,
)
    requires
        sensors.dom().contains(path),
        forall|i: int|
            0 <= i < all.len() && (#[trigger] all[i]).1 == path && all[i].0.kind is Sensor ==> i
                == nth,
    ensures
        sensed(sensors, all).dom() == sensors.dom(),
        sensed(sensors, all)[path] == (if 0 <= nth < all.len() && all[nth].1 == path
            && all[nth].0.kind is Sensor {
            heard(sensors[path], all[nth].0.kind)
        } else {
            sensors[path]
        }),
    decreases all.len(),
{
    if all.len() > 0 {
        let shorter = all.drop_last();
        assert forall|i: int|
            0 <= i < shorter.len() && (#[trigger] shorter[i]).1 == path
                && shorter[i].0.kind is Sensor implies i == nth by {
            assert(all[i] == shorter[i]);
        }
        sensed_once(sensors, shorter, path, nth);
        assert(all[all.len() - 1] == all.last());
        assert(sensed(sensors, all).dom() =~= sensors.dom());
        if 0 <= nth < shorter.len() {
            assert(all[nth] == shorter[nth]);
        }
    }
}

proof fn sensed_keeps_places(sensors: Map<Seq<u64>, Sensor>, all: Seq<(Node, Seq<u64>)>)
    ensures
        sensed(sensors, all).dom() == sensors.dom(),
    decreases all.len(),
{
    if all.len() > 0 {
        sensed_keeps_places(sensors, all.drop_last());
        assert(sensed(sensors, all).dom() =~= sensors.dom());
    }
}

/// A sensor stays exactly where one is drawn. The one drawn there says where
/// its reports go from here on; what was measured stays while its reset is the
/// one on record, and is forgotten with another.
pub proof fn a_sensor_follows_the_one_drawn(
    before: ViewTree,
    after: ViewTree,
    root: Node,
    brought: Seq<Picture>,
    path: Seq<u64>,
    nth: int,
)
    requires
        replaced(before, after, root, brought),
    ensures
        after.sensors@.dom().contains(path) <==> before.sensors@.dom().contains(path)
            && exists|i: int|
            0 <= i < crate::render::tree::visits(root, Seq::empty()).len() && (
            #[trigger] crate::render::tree::visits(root, Seq::empty())[i]).1 == path
                && crate::render::tree::visits(root, Seq::empty())[i].0.kind is Sensor,
        before.sensors@.dom().contains(path) && 0 <= nth < crate::render::tree::visits(
            root,
            Seq::empty(),
        ).len() && crate::render::tree::visits(root, Seq::empty())[nth].1 == path
            && crate::render::tree::visits(root, Seq::empty())[nth].0.kind is Sensor && (forall|
            i: int,
        |
            0 <= i < crate::render::tree::visits(root, Seq::empty()).len() && (
            #[trigger] crate::render::tree::visits(root, Seq::empty())[i]).1 == path
                && crate::render::tree::visits(root, Seq::empty())[i].0.kind is Sensor ==> i == nth)
            ==> {
            let was = before.sensors@[path];
            let is = after.sensors@[path];
            let drawn = crate::render::tree::visits(root, Seq::empty())[nth].0.kind;
            &&& is.reset == drawn->reset
            &&& is.on_show == drawn->on_show
            &&& is.on_resize == drawn->on_resize
            &&& is.on_hide == drawn->on_hide
            &&& was.reset == drawn->reset ==> is.size == was.size && is.pending == was.pending
            &&& was.reset != drawn->reset ==> is.size is None && is.pending is None
        },
{
    let all = crate::render::tree::visits(root, Seq::empty());
    sensed_keeps_places(before.sensors@, all);
    if before.sensors@.dom().contains(path) && 0 <= nth < all.len() && all[nth].1 == path
        && all[nth].0.kind is Sensor && (forall|i: int|
        0 <= i < all.len() && (#[trigger] all[i]).1 == path && all[i].0.kind is Sensor ==> i
            == nth) {
        sensed_once(before.sensors@, all, path, nth);
        assert(crate::render::tree::stands(root, Role::Sensor, path));
    }
}

/// The pictures handed over are exactly those whose bytes come with a node of
/// the tree: a picture's under its hash, a drawing's under its own.
pub proof fn every_picture_brought_is_handed_over(
    before: ViewTree,
    after: ViewTree,
    root: Node,
    handed: Seq<Picture>,
    hash: u64,
)
    requires
        replaced(before, after, root, handed),
    ensures
        handed.contains(Picture::Image(hash)) <==> exists|i: int|
            0 <= i < crate::render::tree::visits(root, Seq::empty()).len() && (match (
            #[trigger] crate::render::tree::visits(root, Seq::empty())[i]).0.kind {
                Kind::Image { hash: own, fresh, .. } => own == hash && fresh,
                Kind::ImageViewer { hash: own, fresh } => own == hash && fresh,
                _ => false,
            }),
        handed.contains(Picture::Vector(hash)) <==> exists|i: int|
            0 <= i < crate::render::tree::visits(root, Seq::empty()).len() && ((
            #[trigger] crate::render::tree::visits(root, Seq::empty())[i]).0.kind matches Kind::Svg {
                data: Some((own, fresh)),
                ..
            } && own == hash && fresh),
{
    let all = crate::render::tree::visits(root, Seq::empty());
    pictures_are_brought(all, Picture::Image(hash));
    pictures_are_brought(all, Picture::Vector(hash));
    if handed.contains(Picture::Image(hash)) {
        let i = choose|i: int|
            0 <= i < all.len() && brought((#[trigger] all[i]).0) == Some(Picture::Image(hash));
        assert(match all[i].0.kind {
            Kind::Image { hash: own, fresh, .. } => own == hash && fresh,
            Kind::ImageViewer { hash: own, fresh } => own == hash && fresh,
            _ => false,
        });
    }
    if handed.contains(Picture::Vector(hash)) {
        let i = choose|i: int|
            0 <= i < all.len() && brought((#[trigger] all[i]).0) == Some(Picture::Vector(hash));
        assert(all[i].0.kind is Svg);
    }
    if exists|i: int|
        0 <= i < all.len() && (match (#[trigger] all[i]).0.kind {
            Kind::Image { hash: own, fresh, .. } => own == hash && fresh,
            Kind::ImageViewer { hash: own, fresh } => own == hash && fresh,
            _ => false,
        }) {
        let i = choose|i: int|
            0 <= i < all.len() && (match (#[trigger] all[i]).0.kind {
                Kind::Image { hash: own, fresh, .. } => own == hash && fresh,
                Kind::ImageViewer { hash: own, fresh } => own == hash && fresh,
                _ => false,
            });
        assert(brought(all[i].0) == Some(Picture::Image(hash)));
    }
    if exists|i: int|
        0 <= i < all.len() && ((#[trigger] all[i]).0.kind matches Kind::Svg {
            data: Some((own, fresh)),
            ..
        } && own == hash && fresh) {
        let i = choose|i: int|
            0 <= i < all.len() && ((#[trigger] all[i]).0.kind matches Kind::Svg {
                data: Some((own, fresh)),
                ..
            } && own == hash && fresh);
        assert(brought(all[i].0) == Some(Picture::Vector(hash)));
    }
}

proof fn pictures_are_brought(all: Seq<(Node, Seq<u64>)>, picture: Picture)
    ensures
        pictures(all).contains(picture) <==> exists|i: int|
            0 <= i < all.len() && brought((#[trigger] all[i]).0) == Some(picture),
    decreases all.len(),
{
    if all.len() > 0 {
        let shorter = all.drop_last();
        pictures_are_brought(shorter, picture);
        let before = pictures(shorter);
        let now = pictures(all);
        if now.contains(picture) {
            let k = choose|k: int| 0 <= k < now.len() && now[k] == picture;
            if k < before.len() {
                assert(before[k] == picture);
                let i = choose|i: int|
                    0 <= i < shorter.len() && brought((#[trigger] shorter[i]).0) == Some(picture);
                assert(all[i] == shorter[i]);
            } else {
                assert(all[all.len() - 1] == all.last());
            }
        }
        if exists|i: int| 0 <= i < all.len() && brought((#[trigger] all[i]).0) == Some(picture) {
            let i = choose|i: int|
                0 <= i < all.len() && brought((#[trigger] all[i]).0) == Some(picture);
            if i < shorter.len() {
                assert(shorter[i] == all[i]);
                let k = choose|k: int| 0 <= k < before.len() && before[k] == picture;
                assert(now[k] == picture);
            } else {
                assert(now[before.len() as int] == picture);
            }
        }
    }
}

impl ViewTree {
    /// Draws `root` from here on. What the host keeps stays exactly where the
    /// new tree still has the node it is kept for, rows wait to be asked for
    /// again, and the pictures whose bytes came along are handed over to be
    /// kept. A sensor that leaves says nothing: the handlers it would report
    /// to belong to a tree that is gone.
    pub fn replace(&mut self, root: Node) -> (brought: Vec<Picture>)
        ensures
            replaced(*old(self), *final(self), root, brought@),
    {
        let brought;
        {
            let walked = walk_authored_paths(&root);
            brought = bring(&walked);
            sense_all(&mut self.sensors, &walked);
            self.bounds.retain(&count(&root, &walked, Role::Mounted));
            self.focus_targets.retain(&count(&root, &walked, Role::Focusable));
            self.guest_focus_targets.retain(&count_focuses(&root, &walked));
            self.fields.retain(&count(&root, &walked, Role::Field));
            let scrollers = count(&root, &walked, Role::Scroller);
            self.scrolls.retain(&scrollers);
            self.lists.retain(&scrollers);
            self.scroll_positions.retain(&scrollers);
            self.uniform_lists.retain(&count_uniform_lists(&root, &walked));
            self.uniform_rows.clear();
            self.variable_lists.retain(&count_variable_lists(&root, &walked));
            self.variable_rows.clear();
            self.pickers.retain(&count(&root, &walked, Role::Picker));
            self.drags.retain(&count(&root, &walked, Role::Drag));
            self.dialogs.retain(&count(&root, &walked, Role::Dialog));
            self.containers.retain(&count(&root, &walked, Role::Responsive));
            let retained = count(&root, &walked, Role::Retained);
            self.ranges.retain(&retained);
            self.editors.retain(&retained);
            self.viewers.retain(&retained);
            self.sensors.retain(&count(&root, &walked, Role::Sensor));
        }
        self.root = root;
        self.stale = true;
        brought
    }
}

} // verus!
