//! What the host keeps for one view: the tree last drawn, and the native
//! state under it.

use vstd::prelude::*;

use crate::render::keyed::AuthoredPath;
use crate::render::keyed::KeySet;
use crate::render::keyed::Keyed;
use crate::render::tree::Node;
use crate::render::tree::ScrollAnchor;
use crate::render::tree::ScrollDirection;
use crate::render::tree::VariableListKey;

verus! {

/// One row of a virtual column: the key it is known by, and a number for what
/// it draws, the same exactly while it draws the same at the same gap.
#[derive(Debug)]
pub struct VirtualRow {
    pub key: String,
    pub face: u64,
}

/// A virtual column: its native list, the rows last given to it, the end it is
/// anchored to, and the width its rows were last measured at.
#[derive(Debug)]
pub struct VirtualScroll {
    pub state: u64,
    pub rows: Vec<VirtualRow>,
    pub anchor: ScrollAnchor,
    pub measured_width: Option<u64>,
}

/// Where a pane stood after a frame: how far it was from its start, and how
/// far it could go.
#[derive(Clone, Copy, Debug, PartialEq, Eq, Structural)]
pub struct Position {
    pub offset: u64,
    pub maximum: u64,
}

/// Where a scroller stood when its view was last put away. `rows` are the
/// keys of a virtual column, `None` for a scroller that is not one.
#[derive(Debug)]
pub struct ScrollPresentation {
    pub direction: ScrollDirection,
    pub anchors: (ScrollAnchor, ScrollAnchor),
    pub rows: Option<Vec<String>>,
    pub offset: u64,
}

/// What is put back once, the first time a restored view draws it.
pub struct Presentation {
    pub focused_container: Option<AuthoredPath>,
    pub scrolls: Keyed<AuthoredPath, ScrollPresentation>,
}

/// A node that reports being shown, resized and hidden: the measurement last
/// reported, the one on its way, and where the reports go.
#[derive(Clone, Copy, Debug, PartialEq, Eq, Structural)]
pub struct Sensor {
    pub reset: u64,
    pub size: Option<u64>,
    pub pending: Option<u64>,
    pub on_show: Option<u32>,
    pub on_resize: Option<u32>,
    pub on_hide: Option<u32>,
}

/// One view's tree and the native state under it. A native object is known
/// here by the number the host gave it.
pub struct ViewTree {
    pub root: Node,
    /// Where the nodes that were drawn stand.
    pub mounted: KeySet<AuthoredPath>,
    pub bounds: Keyed<AuthoredPath, u64>,
    /// Containers that take focus. Only a container is one.
    pub focus_targets: Keyed<AuthoredPath, u64>,
    /// Focus handles, by the number the guest knows each by.
    pub guest_focus_targets: Keyed<u64, u64>,
    pub fields: Keyed<AuthoredPath, u64>,
    pub pickers: Keyed<AuthoredPath, u64>,
    pub editors: Keyed<AuthoredPath, u64>,
    pub editor_store: Option<u64>,
    pub scrolls: Keyed<AuthoredPath, u64>,
    pub lists: Keyed<AuthoredPath, VirtualScroll>,
    pub scroll_positions: Keyed<AuthoredPath, Position>,
    pub uniform_lists: Keyed<AuthoredPath, u64>,
    pub uniform_rows: Keyed<AuthoredPath, Vec<u64>>,
    pub variable_lists: Keyed<VariableListKey, u64>,
    pub variable_rows: Keyed<VariableListKey, Vec<u64>>,
    pub drags: Keyed<AuthoredPath, u64>,
    pub dialogs: Keyed<AuthoredPath, u64>,
    pub containers: Keyed<AuthoredPath, u64>,
    pub ranges: Keyed<AuthoredPath, u64>,
    pub viewers: Keyed<AuthoredPath, u64>,
    pub sensors: Keyed<AuthoredPath, Sensor>,
    pub presentation: Presentation,
    /// Where the node being drawn stands.
    pub authored_path: AuthoredPath,
    /// How many id-less containers this frame has drawn.
    pub render_index: u64,
    /// The handler of a click a person made and no one has claimed.
    pub user_activation: Option<u32>,
    /// Whether what is on screen is behind this.
    pub stale: bool,
}

/// What a view tells its guest, as far as a person's click stands behind it.
#[derive(Clone, Copy, Debug, PartialEq, Eq, Structural)]
pub enum Event {
    Message(u32),
    Click { handler: u32 },
    AuxClick { handler: u32 },
    Select { handler: u32 },
    Other,
}

/// The handler a person's click could have reached through `event`.
pub open spec fn activated(event: Event) -> Option<u32> {
    match event {
        Event::Message(handler) => Some(handler),
        Event::Click { handler } => Some(handler),
        Event::AuxClick { handler } => Some(handler),
        Event::Select { handler } => Some(handler),
        Event::Other => None,
    }
}

/// Whether claiming the person's click behind `event` gives `claimed` and
/// leaves the tree as `after`.
pub open spec fn claims(
    before: ViewTree,
    event: Event,
    after: ViewTree,
    claimed: Option<()>,
) -> bool {
    &&& claimed is Some <==> activated(event) is Some && before.user_activation == activated(event)
    &&& claimed is Some ==> after == (ViewTree { user_activation: None, ..before })
    &&& claimed is None ==> after == before
}

/// A click is claimed once, and only by an event its own handler hears: any
/// other event leaves it to be claimed.
pub proof fn a_click_is_claimed_once(
    before: ViewTree,
    handler: u32,
    event: Event,
    after: ViewTree,
    claimed: Option<()>,
    again: ViewTree,
    reclaimed: Option<()>,
)
    requires
        before.user_activation == Some(handler),
        claims(before, event, after, claimed),
        claims(after, event, again, reclaimed),
    ensures
        claimed is Some <==> event == Event::Message(handler) || event == (Event::Click { handler })
            || event == (Event::AuxClick { handler }) || event == (Event::Select { handler }),
        reclaimed is None,
        claimed is Some ==> after.user_activation is None,
        claimed is None ==> after.user_activation == Some(handler),
        after.root == before.root && after.stale == before.stale,
{
}

/// With no click on record there is nothing to claim.
pub proof fn no_click_is_claimed_that_was_not_made(
    before: ViewTree,
    event: Event,
    after: ViewTree,
    claimed: Option<()>,
)
    requires
        before.user_activation is None,
        claims(before, event, after, claimed),
    ensures
        claimed is None,
        after == before,
{
}

impl ViewTree {
    /// A view of `root` with nothing kept for it yet.
    pub fn new(root: Node) -> (tree: Self)
        ensures
            tree.root == root,
            tree.mounted@ == Set::<Seq<u64>>::empty(),
            tree.bounds@ == Map::<Seq<u64>, u64>::empty(),
            tree.focus_targets@ == Map::<Seq<u64>, u64>::empty(),
            tree.guest_focus_targets@ == Map::<u64, u64>::empty(),
            tree.fields@ == Map::<Seq<u64>, u64>::empty(),
            tree.pickers@ == Map::<Seq<u64>, u64>::empty(),
            tree.editors@ == Map::<Seq<u64>, u64>::empty(),
            tree.editor_store is None,
            tree.scrolls@ == Map::<Seq<u64>, u64>::empty(),
            tree.lists@ == Map::<Seq<u64>, VirtualScroll>::empty(),
            tree.scroll_positions@ == Map::<Seq<u64>, Position>::empty(),
            tree.uniform_lists@ == Map::<Seq<u64>, u64>::empty(),
            tree.uniform_rows@ == Map::<Seq<u64>, Vec<u64>>::empty(),
            tree.variable_lists@ == Map::<(Seq<u64>, u64), u64>::empty(),
            tree.variable_rows@ == Map::<(Seq<u64>, u64), Vec<u64>>::empty(),
            tree.drags@ == Map::<Seq<u64>, u64>::empty(),
            tree.dialogs@ == Map::<Seq<u64>, u64>::empty(),
            tree.containers@ == Map::<Seq<u64>, u64>::empty(),
            tree.ranges@ == Map::<Seq<u64>, u64>::empty(),
            tree.viewers@ == Map::<Seq<u64>, u64>::empty(),
            tree.sensors@ == Map::<Seq<u64>, Sensor>::empty(),
            tree.presentation.focused_container is None,
            tree.presentation.scrolls@ == Map::<Seq<u64>, ScrollPresentation>::empty(),
            tree.authored_path@ == Seq::<u64>::empty(),
            tree.render_index == 0,
            tree.user_activation is None,
            tree.stale,
    {
        ViewTree {
            root,
            mounted: KeySet::new(),
            bounds: Keyed::new(),
            focus_targets: Keyed::new(),
            guest_focus_targets: Keyed::new(),
            fields: Keyed::new(),
            pickers: Keyed::new(),
            editors: Keyed::new(),
            editor_store: None,
            scrolls: Keyed::new(),
            lists: Keyed::new(),
            scroll_positions: Keyed::new(),
            uniform_lists: Keyed::new(),
            uniform_rows: Keyed::new(),
            variable_lists: Keyed::new(),
            variable_rows: Keyed::new(),
            drags: Keyed::new(),
            dialogs: Keyed::new(),
            containers: Keyed::new(),
            ranges: Keyed::new(),
            viewers: Keyed::new(),
            sensors: Keyed::new(),
            presentation: Presentation { focused_container: None, scrolls: Keyed::new() },
            authored_path: Vec::new(),
            render_index: 0,
            user_activation: None,
            stale: true,
        }
    }

    /// Claims the person's click behind `event`: `Some` exactly when the click
    /// on record is one its handler answers, and then the record is spent.
    pub fn take_user_activation(&mut self, event: Event) -> (claimed: Option<()>)
        ensures
            claims(*old(self), event, *final(self), claimed),
    {
        let message = match event {
            Event::Message(handler) => handler,
            Event::Click { handler } => handler,
            Event::AuxClick { handler } => handler,
            Event::Select { handler } => handler,
            Event::Other => {
                return None;
            },
        };
        let actual_click = self.user_activation == Some(message);
        if !actual_click {
            return None;
        }
        self.user_activation = None;
        Some(())
    }

    /// Edits go to `store` from here on, through editors made anew.
    pub fn set_editor_store(&mut self, store: u64)
        ensures
            *final(self) == (ViewTree {
                editors: final(self).editors,
                editor_store: Some(store),
                stale: true,
                ..*old(self)
            }),
            final(self).editors@ == Map::<Seq<u64>, u64>::empty(),
    {
        self.editors.clear();
        self.editor_store = Some(store);
        self.stale = true;
    }
}

} // verus!
