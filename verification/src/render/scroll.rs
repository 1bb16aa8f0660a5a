//! Scrollers: what a frame does to a virtual column's native list, and where
//! a pane stands after it.

use vstd::prelude::*;

use crate::render::commands::Sense;
use crate::render::commands::sense;
use crate::render::commands::sense_of;
use crate::render::keyed::path_of;
use crate::render::tree::Kind;
use crate::render::tree::Node;
use crate::render::tree::ScrollAnchor;
use crate::render::tree::ScrollDirection;
use crate::render::view::Position;
use crate::render::view::ScrollPresentation;
use crate::render::view::ViewTree;
use crate::render::view::VirtualRow;
use crate::render::view::VirtualScroll;
use crate::text::same_text;

verus! {

// ---------- a virtual column's rows ----------
/// A row as a guest drew it, its measures by their bits.
#[derive(Debug)]
pub struct DrawnRow {
    pub key: String,
    pub content: Node,
    pub gap: u32,
    pub estimated_height: u32,
}

/// Whether `wrapped` is `row` standing alone in a copy of the container `node`.
pub open spec fn wraps(node: Node, row: DrawnRow, wrapped: DrawnRow) -> bool {
    &&& wrapped.key@ == row.key@
    &&& wrapped.gap == row.gap
    &&& wrapped.estimated_height == row.estimated_height
    &&& wrapped.content.id == node.id
    &&& wrapped.content.kind == node.kind
    &&& wrapped.content.children@ == seq![row.content]
}

/// The rows a column's content stands for. A container around one thing only
/// passes on that thing's rows, each in its own copy of the container, and
/// nothing else has any: no content has rows of its own.
pub fn virtual_rows(node: &Node) -> (rows: Option<Vec<DrawnRow>>)
    ensures
        rows is None,
    decreases node,
{
    if let Kind::Container { .. } = &node.kind {
        if node.children.len() == 1 {
            return match virtual_rows(&node.children[0]) {
                Some(rows) => Some(wrap_virtual_rows(node, rows)),
                None => None,
            };
        }
    }
    None
}

/// `rows`, each in its own copy of the container `node`.
pub fn wrap_virtual_rows(node: &Node, rows: Vec<DrawnRow>) -> (wrapped: Vec<DrawnRow>)
    requires
        node.kind is Container,
    ensures
        wrapped@.len() == rows@.len(),
        forall|i: int|
            0 <= i < rows@.len() ==> wraps(*node, rows@[i], #[trigger] wrapped@[i]),
{
    let mut rest = rows;
    let mut wrapped: Vec<DrawnRow> = Vec::new();
    let ghost count = rest@.len();
    let ghost whole = rest@;
    while rest.len() > 0
        invariant
            node.kind is Container,
            whole.len() == count,
            rest@.len() + wrapped@.len() == count,
            rest@ == whole.skip(wrapped@.len() as int),
            forall|i: int|
                0 <= i < wrapped@.len() ==> wraps(*node, whole[i], #[trigger] wrapped@[i]),
        decreases rest@.len(),
    {
        let row = rest.remove(0);
        let shell = match &node.kind {
            Kind::Container { scrolls, focus } => Kind::Container {
                scrolls: *scrolls,
                focus: *focus,
            },
            _ => Kind::Plain,
        };
        let mut children: Vec<Node> = Vec::new();
        children.push(row.content);
        let content = Node { id: node.id, kind: shell, children };
        wrapped.push(
            DrawnRow {
                key: row.key,
                content,
                gap: row.gap,
                estimated_height: row.estimated_height,
            },
        );
    }
    wrapped
}

// ---------- what changed between two frames ----------
/// How many rows from the top both frames begin with, counting from `at`.
pub open spec fn common_prefix(old_rows: Seq<VirtualRow>, new_rows: Seq<VirtualRow>, at: int) -> int
    decreases old_rows.len() - at,
{
    if at < old_rows.len() && at < new_rows.len() && old_rows[at].key@ == new_rows[at].key@ {
        common_prefix(old_rows, new_rows, at + 1)
    } else {
        at
    }
}

/// How many rows past the first `prefix` both frames end with, counting from
/// `n`.
pub open spec fn common_suffix(
    old_rows: Seq<VirtualRow>,
    new_rows: Seq<VirtualRow>,
    prefix: int,
    n: int,
) -> int
    decreases old_rows.len() - prefix - n,
{
    if prefix + n < old_rows.len() && prefix + n < new_rows.len() && old_rows[old_rows.len() - 1
        - n].key@ == new_rows[new_rows.len() - 1 - n].key@ {
        common_suffix(old_rows, new_rows, prefix, n + 1)
    } else {
        n
    }
}

/// The rows that give way and the rows that come in their place: from
/// `prefix` up to an end in the old frame, and up to an end in the new.
pub open spec fn splice_of(old_rows: Seq<VirtualRow>, new_rows: Seq<VirtualRow>) -> (int, int, int) {
    let prefix = common_prefix(old_rows, new_rows, 0);
    let suffix = common_suffix(old_rows, new_rows, prefix, 0);
    (prefix, old_rows.len() - suffix, new_rows.len() - suffix)
}

/// Where the row at `index` of the new frame stood in the old one, when it is
/// not one of those that came.
pub open spec fn stood_at(old_rows: Seq<VirtualRow>, new_rows: Seq<VirtualRow>, index: int) -> Option<
    int,
> {
    let (prefix, old_end, new_end) = splice_of(old_rows, new_rows);
    if index < prefix {
        Some(index)
    } else if index >= new_end {
        Some(old_end + index - new_end)
    } else {
        None
    }
}

/// Whether the row at `index` stayed and draws something else than it did.
pub open spec fn redrawn(old_rows: Seq<VirtualRow>, new_rows: Seq<VirtualRow>, index: int) -> bool {
    stood_at(old_rows, new_rows, index) matches Some(place) && old_rows[place].face
        != new_rows[index].face
}

/// The rows among the first `upto` to measure again, in order.
pub open spec fn to_remeasure(
    old_rows: Seq<VirtualRow>,
    new_rows: Seq<VirtualRow>,
    upto: int,
) -> Seq<usize>
    decreases upto,
{
    if upto <= 0 {
        Seq::empty()
    } else {
        let before = to_remeasure(old_rows, new_rows, upto - 1);
        if redrawn(old_rows, new_rows, upto - 1) {
            before.push((upto - 1) as usize)
        } else {
            before
        }
    }
}

proof fn prefix_shape(old_rows: Seq<VirtualRow>, new_rows: Seq<VirtualRow>, at: int)
    requires
        0 <= at <= old_rows.len(),
        at <= new_rows.len(),
    ensures
        at <= common_prefix(old_rows, new_rows, at) <= old_rows.len(),
        common_prefix(old_rows, new_rows, at) <= new_rows.len(),
        forall|i: int|
            at <= i < common_prefix(old_rows, new_rows, at) ==> (#[trigger] old_rows[i]).key@
                == new_rows[i].key@,
    decreases old_rows.len() - at,
{
    if at < old_rows.len() && at < new_rows.len() && old_rows[at].key@ == new_rows[at].key@ {
        prefix_shape(old_rows, new_rows, at + 1);
    }
}

proof fn suffix_shape(
    old_rows: Seq<VirtualRow>,
    new_rows: Seq<VirtualRow>,
    prefix: int,
    n: int,
)
    requires
        0 <= prefix,
        0 <= n,
        prefix + n <= old_rows.len(),
        prefix + n <= new_rows.len(),
    ensures
        n <= common_suffix(old_rows, new_rows, prefix, n),
        prefix + common_suffix(old_rows, new_rows, prefix, n) <= old_rows.len(),
        prefix + common_suffix(old_rows, new_rows, prefix, n) <= new_rows.len(),
        forall|i: int|
            new_rows.len() - common_suffix(old_rows, new_rows, prefix, n) <= i < new_rows.len() - n
                ==> (#[trigger] new_rows[i]).key@ == old_rows[i + old_rows.len()
                - new_rows.len()].key@,
    decreases old_rows.len() - n,
{
    if prefix + n < old_rows.len() && prefix + n < new_rows.len() && old_rows[old_rows.len() - 1
        - n].key@ == new_rows[new_rows.len() - 1 - n].key@ {
        suffix_shape(old_rows, new_rows, prefix, n + 1);
    }
}

/// A splice leaves the list as many rows as the new frame has, and every row
/// it leaves alone is known by the key it had.
pub proof fn a_splice_keeps_the_rows_it_leaves_alone(
    old_rows: Seq<VirtualRow>,
    new_rows: Seq<VirtualRow>,
)
    ensures
        ({
            let (prefix, old_end, new_end) = splice_of(old_rows, new_rows);
            &&& 0 <= prefix <= old_end <= old_rows.len()
            &&& prefix <= new_end <= new_rows.len()
            &&& old_rows.len() - (old_end - prefix) + (new_end - prefix) == new_rows.len()
            &&& forall|index: int|
                0 <= index < new_rows.len() ==> (#[trigger] stood_at(
                    old_rows,
                    new_rows,
                    index,
                ) matches Some(place) ==> 0 <= place < old_rows.len() && old_rows[place].key@
                    == new_rows[index].key@)
        }),
{
    prefix_shape(old_rows, new_rows, 0);
    let prefix = common_prefix(old_rows, new_rows, 0);
    suffix_shape(old_rows, new_rows, prefix, 0);
    let (_, old_end, new_end) = splice_of(old_rows, new_rows);
    assert forall|index: int| 0 <= index < new_rows.len() implies (#[trigger] stood_at(
        old_rows,
        new_rows,
        index,
    ) matches Some(place) ==> 0 <= place < old_rows.len() && old_rows[place].key@
        == new_rows[index].key@) by {
        if index < prefix {
            assert(old_rows[index].key@ == new_rows[index].key@);
        } else if index >= new_end {
            assert(new_rows[index].key@ == old_rows[index + old_rows.len() - new_rows.len()].key@);
        }
    }
}

proof fn prefix_reaches(
    old_rows: Seq<VirtualRow>,
    new_rows: Seq<VirtualRow>,
    at: int,
)
    requires
        old_rows.len() == new_rows.len(),
        0 <= at <= old_rows.len(),
        forall|i: int| 0 <= i < old_rows.len() ==> (#[trigger] old_rows[i]).key@ == new_rows[i].key@,
    ensures
        common_prefix(old_rows, new_rows, at) == old_rows.len(),
    decreases old_rows.len() - at,
{
    if at < old_rows.len() {
        prefix_reaches(old_rows, new_rows, at + 1);
    }
}

/// A frame of rows known by the keys the list already has splices nothing.
pub proof fn the_same_keys_splice_nothing(old_rows: Seq<VirtualRow>, new_rows: Seq<VirtualRow>)
    requires
        old_rows.len() == new_rows.len(),
        forall|i: int| 0 <= i < old_rows.len() ==> (#[trigger] old_rows[i]).key@ == new_rows[i].key@,
    ensures
        splice_of(old_rows, new_rows) == (
            old_rows.len() as int,
            old_rows.len() as int,
            old_rows.len() as int,
        ),
{
    prefix_reaches(old_rows, new_rows, 0);
}

/// What becomes of a native list's rows.
#[derive(Clone, Copy, Debug, PartialEq, Eq, Structural)]
pub enum Change {
    /// They stay.
    Nothing,
    /// An empty list takes `count` rows at one estimated height.
    Reset { count: usize },
    /// `count` rows take the place of those from `from` up to `to`.
    Splice { from: usize, to: usize, count: usize },
}

/// The end a new list lays its rows out from.
#[derive(Clone, Copy, Debug, PartialEq, Eq, Structural)]
pub enum Alignment {
    Top,
    Bottom,
}

/// What a frame does to a virtual column's native list.
#[derive(Debug)]
pub struct VirtualPlan {
    pub list: u64,
    /// How the list is made, when it is new.
    pub made: Option<Alignment>,
    pub change: Change,
    /// The rows to measure again.
    pub remeasure: Vec<usize>,
    /// Whether the list stays at its tail as rows come.
    pub follow: bool,
    /// The offset to put back once the list is first measured.
    pub restored: Option<u64>,
}

/// Whether `keys` are the keys of `rows`, in order.
pub open spec fn same_keys(keys: Seq<String>, rows: Seq<VirtualRow>) -> bool {
    keys.len() == rows.len() && forall|i: int|
        0 <= i < keys.len() ==> (#[trigger] keys[i])@ == rows[i].key@
}

/// The offset of `saved` that a column of `rows` takes up again: its own, if
/// the rows have stayed the ones it was saved with.
pub open spec fn offset_for(saved: Option<ScrollPresentation>, rows: Seq<VirtualRow>) -> Option<u64> {
    match saved {
        Some(saved) => match saved.rows {
            Some(keys) => if same_keys(keys@, rows) {
                Some(saved.offset)
            } else {
                None
            },
            None => None,
        },
        None => None,
    }
}

/// The rows a column kept at `path` has, none where there is no column.
pub open spec fn rows_at(tree: ViewTree, path: Seq<u64>) -> Seq<VirtualRow> {
    if tree.lists@.dom().contains(path) {
        tree.lists@[path].rows@
    } else {
        Seq::empty()
    }
}

/// The width the rows of a column kept at `path` were last measured at.
pub open spec fn width_at(tree: ViewTree, path: Seq<u64>) -> Option<u64> {
    if tree.lists@.dom().contains(path) {
        tree.lists@[path].measured_width
    } else {
        None
    }
}

/// What becomes of the rows of a list that had `old_rows`.
pub open spec fn change_of(old_rows: Seq<VirtualRow>, new_rows: Seq<VirtualRow>) -> Change {
    let (prefix, old_end, new_end) = splice_of(old_rows, new_rows);
    if prefix == old_end && prefix == new_end {
        Change::Nothing
    } else if old_rows.len() == 0 {
        Change::Reset { count: new_rows.len() as usize }
    } else {
        Change::Splice {
            from: prefix as usize,
            to: old_end as usize,
            count: (new_end - prefix) as usize,
        }
    }
}

fn keys_match(keys: &Vec<String>, rows: &Vec<VirtualRow>) -> (same: bool)
    ensures
        same == same_keys(keys@, rows@),
{
    if keys.len() != rows.len() {
        return false;
    }
    let mut at: usize = 0;
    while at < keys.len()
        invariant
            keys@.len() == rows@.len(),
            at <= keys@.len(),
            forall|i: int| 0 <= i < at ==> (#[trigger] keys@[i])@ == rows@[i].key@,
        decreases keys@.len() - at,
    {
        if !same_text(keys[at].as_str(), rows[at].key.as_str()) {
            return false;
        }
        at += 1;
    }
    true
}

fn splice(old_rows: &Vec<VirtualRow>, new_rows: &Vec<VirtualRow>) -> (ends: (usize, usize, usize))
    ensures
        (ends.0 as int, ends.1 as int, ends.2 as int) == splice_of(old_rows@, new_rows@),
        ends.0 <= ends.1 <= old_rows@.len(),
        ends.0 <= ends.2 <= new_rows@.len(),
{
    let mut prefix: usize = 0;
    while prefix < old_rows.len() && prefix < new_rows.len() && same_text(
        old_rows[prefix].key.as_str(),
        new_rows[prefix].key.as_str(),
    )
        invariant
            prefix <= old_rows@.len(),
            prefix <= new_rows@.len(),
            common_prefix(old_rows@, new_rows@, 0) == common_prefix(
                old_rows@,
                new_rows@,
                prefix as int,
            ),
        decreases old_rows@.len() - prefix,
    {
        prefix += 1;
    }
    let mut suffix: usize = 0;
    while suffix < old_rows.len() - prefix && suffix < new_rows.len() - prefix && same_text(
        old_rows[old_rows.len() - 1 - suffix].key.as_str(),
        new_rows[new_rows.len() - 1 - suffix].key.as_str(),
    )
        invariant
            prefix + suffix <= old_rows@.len(),
            prefix + suffix <= new_rows@.len(),
            prefix <= old_rows.len(),
            prefix <= new_rows.len(),
            common_suffix(old_rows@, new_rows@, prefix as int, 0) == common_suffix(
                old_rows@,
                new_rows@,
                prefix as int,
                suffix as int,
            ),
        decreases old_rows@.len() - suffix,
    {
        suffix += 1;
    }
    (prefix, old_rows.len() - suffix, new_rows.len() - suffix)
}

fn remeasured(
    old_rows: &Vec<VirtualRow>,
    new_rows: &Vec<VirtualRow>,
    prefix: usize,
    old_end: usize,
    new_end: usize,
) -> (again: Vec<usize>)
    requires
        (prefix as int, old_end as int, new_end as int) == splice_of(old_rows@, new_rows@),
    ensures
        again@ == to_remeasure(old_rows@, new_rows@, new_rows@.len() as int),
{
    proof {
        a_splice_keeps_the_rows_it_leaves_alone(old_rows@, new_rows@);
    }
    let mut again: Vec<usize> = Vec::new();
    let mut index: usize = 0;
    while index < new_rows.len()
        invariant
            (prefix as int, old_end as int, new_end as int) == splice_of(old_rows@, new_rows@),
            prefix <= old_end <= old_rows.len(),
            old_rows@.len() - old_end == new_rows@.len() - new_end,
            prefix <= old_rows@.len(),
            index <= new_rows@.len(),
            again@ == to_remeasure(old_rows@, new_rows@, index as int),
        decreases new_rows@.len() - index,
    {
        let changed = if index < prefix {
            old_rows[index].face != new_rows[index].face
        } else if index >= new_end {
            old_rows[old_end + (index - new_end)].face != new_rows[index].face
        } else {
            false
        };
        assert(changed == redrawn(old_rows@, new_rows@, index as int));
        if changed {
            again.push(index);
        }
        index += 1;
    }
    again
}

/// Whether `plan`, leaving the view as `after`, brings the list at `path` up
/// to `rows`.
pub open spec fn brought_up(
    before: ViewTree,
    after: ViewTree,
    path: Seq<u64>,
    rows: Vec<VirtualRow>,
    anchor: ScrollAnchor,
    follow: bool,
    saved: Option<ScrollPresentation>,
    fresh: u64,
    plan: VirtualPlan,
) -> bool {
    &&& plan.list == (if before.lists@.dom().contains(path) {
        before.lists@[path].state
    } else {
        fresh
    })
    &&& plan.made == (if before.lists@.dom().contains(path) {
        None
    } else if anchor == ScrollAnchor::End {
        Some(Alignment::Bottom)
    } else {
        Some(Alignment::Top)
    })
    &&& plan.change == change_of(rows_at(before, path), rows@)
    &&& plan.remeasure@ == to_remeasure(rows_at(before, path), rows@, rows@.len() as int)
    &&& plan.follow == follow
    &&& plan.restored == offset_for(saved, rows@)
    &&& after == (ViewTree { lists: after.lists, ..before })
    &&& after.lists@ == before.lists@.insert(
        path,
        VirtualScroll {
            state: plan.list,
            rows,
            anchor,
            measured_width: width_at(before, path),
        },
    )
}

// ---------- what a frame does to a column ----------
/// Whether the rows of a new frame part from the old ones' as soon as they can
/// and come together as soon as they can: the first `from` are known by the
/// same keys and no more are, and so are those from `to` on, which are those
/// from `upto` on in the new frame.
pub open spec fn parts_at(
    old_rows: Seq<VirtualRow>,
    new_rows: Seq<VirtualRow>,
    from: int,
    to: int,
    upto: int,
) -> bool {
    &&& 0 <= from <= to <= old_rows.len()
    &&& from <= upto <= new_rows.len()
    &&& old_rows.len() - to == new_rows.len() - upto
    &&& forall|i: int|
        0 <= i < from ==> (#[trigger] old_rows[i]).key@ == (#[trigger] new_rows[i]).key@
    &&& forall|i: int|
        upto <= i < new_rows.len() ==> (#[trigger] new_rows[i]).key@ == old_rows[to + i - upto].key@
    &&& from < old_rows.len() && from < new_rows.len() ==> old_rows[from].key@
        != new_rows[from].key@
    &&& from < to && from < upto ==> old_rows[to - 1].key@ != new_rows[upto - 1].key@
}

proof fn prefix_ends(old_rows: Seq<VirtualRow>, new_rows: Seq<VirtualRow>, at: int)
    requires
        0 <= at <= old_rows.len(),
        at <= new_rows.len(),
    ensures
        ({
            let end = common_prefix(old_rows, new_rows, at);
            end < old_rows.len() && end < new_rows.len() ==> old_rows[end].key@
                != new_rows[end].key@
        }),
    decreases old_rows.len() - at,
{
    if at < old_rows.len() && at < new_rows.len() && old_rows[at].key@ == new_rows[at].key@ {
        prefix_ends(old_rows, new_rows, at + 1);
    }
}

proof fn suffix_ends(old_rows: Seq<VirtualRow>, new_rows: Seq<VirtualRow>, prefix: int, n: int)
    requires
        0 <= prefix,
        0 <= n,
        prefix + n <= old_rows.len(),
        prefix + n <= new_rows.len(),
    ensures
        ({
            let end = common_suffix(old_rows, new_rows, prefix, n);
            prefix + end < old_rows.len() && prefix + end < new_rows.len() ==> old_rows[old_rows.len()
                - 1 - end].key@ != new_rows[new_rows.len() - 1 - end].key@
        }),
    decreases old_rows.len() - n,
{
    if prefix + n < old_rows.len() && prefix + n < new_rows.len() && old_rows[old_rows.len() - 1
        - n].key@ == new_rows[new_rows.len() - 1 - n].key@ {
        suffix_ends(old_rows, new_rows, prefix, n + 1);
    }
}

proof fn remeasured_are_redrawn(old_rows: Seq<VirtualRow>, new_rows: Seq<VirtualRow>, upto: int)
    requires
        0 <= upto <= new_rows.len(),
        new_rows.len() <= usize::MAX,
    ensures
        forall|index: usize|
            #![trigger to_remeasure(old_rows, new_rows, upto).contains(index)]
            to_remeasure(old_rows, new_rows, upto).contains(index) <==> index < upto && redrawn(
                old_rows,
                new_rows,
                index as int,
            ),
        forall|i: int, j: int|
            0 <= i < j < to_remeasure(old_rows, new_rows, upto).len() ==> (
            #[trigger] to_remeasure(old_rows, new_rows, upto)[i]) < (
            #[trigger] to_remeasure(old_rows, new_rows, upto)[j]),
    decreases upto,
{
    if upto > 0 {
        remeasured_are_redrawn(old_rows, new_rows, upto - 1);
        let before = to_remeasure(old_rows, new_rows, upto - 1);
        let now = to_remeasure(old_rows, new_rows, upto);
        let last = (upto - 1) as usize;
        assert forall|index: usize| #![trigger now.contains(index)]
            now.contains(index) <==> index < upto && redrawn(old_rows, new_rows, index as int) by {
            if now.contains(index) {
                let i = choose|i: int| 0 <= i < now.len() && now[i] == index;
                if i < before.len() {
                    assert(before[i] == index);
                    assert(before.contains(index));
                }
            }
            if index < upto - 1 && redrawn(old_rows, new_rows, index as int) {
                assert(before.contains(index));
                let i = choose|i: int| 0 <= i < before.len() && before[i] == index;
                assert(now[i] == index);
            }
            if index == last && redrawn(old_rows, new_rows, upto - 1) {
                assert(now[before.len() as int] == index);
            }
        }
        assert forall|i: int, j: int| 0 <= i < j < now.len() implies (#[trigger] now[i]) < (
        #[trigger] now[j]) by {
            assert(before.contains(before[i]));
            if j < before.len() {
                assert(before[i] < before[j]);
            }
        }
    }
}

/// A frame brings a column up to its rows. The column keeps its native list,
/// and gets the fresh one only where it had none, laid out from the end it is
/// anchored to. The rows that give way are those between the keys both frames
/// begin with and the keys both end with, and no more. A row is measured again
/// exactly where it stayed and draws something else, spliced or not, in order.
/// What was put away is taken up exactly where it was put away over the very
/// keys of these rows.
pub proof fn a_column_is_brought_up_to_its_rows(
    before: ViewTree,
    after: ViewTree,
    path: Seq<u64>,
    rows: Vec<VirtualRow>,
    anchor: ScrollAnchor,
    follow: bool,
    saved: Option<ScrollPresentation>,
    fresh: u64,
    plan: VirtualPlan,
)
    requires
        brought_up(before, after, path, rows, anchor, follow, saved, fresh, plan),
    ensures
        rows_at(before, path) == (if before.lists@.dom().contains(path) {
            before.lists@[path].rows@
        } else {
            Seq::empty()
        }),
        ({
            let old_rows = rows_at(before, path);
            let new_rows = rows@;
            exists|from: int, to: int, upto: int| #[trigger]
                parts_at(old_rows, new_rows, from, to, upto) && {
                    &&& plan.change is Nothing <==> from == to && from == upto
                    &&& plan.change is Reset <==> old_rows.len() == 0 && new_rows.len() > 0
                    &&& plan.change matches Change::Reset { count } ==> count == new_rows.len()
                    &&& plan.change matches Change::Splice { from: first, to: end, count } ==> first
                        == from && end == to && count == upto - from
                    &&& forall|index: usize|
                        #![trigger plan.remeasure@.contains(index)]
                        plan.remeasure@.contains(index) <==> {
                            ||| index < from && old_rows[index as int].face
                                != new_rows[index as int].face
                            ||| upto <= index < new_rows.len() && old_rows[to + index - upto].face
                                != new_rows[index as int].face
                        }
                }
        }),
        ({
            let known = before.lists@.dom().contains(path);
            let new_rows = rows@;
            &&& known ==> plan.list == before.lists@[path].state && plan.made is None
            &&& !known ==> plan.list == fresh && (plan.made == Some(Alignment::Bottom) <==> anchor
                == ScrollAnchor::End) && (plan.made == Some(Alignment::Top) <==> anchor
                != ScrollAnchor::End)
            &&& plan.follow == follow
            &&& forall|i: int, j: int|
                0 <= i < j < plan.remeasure@.len() ==> (#[trigger] plan.remeasure@[i]) < (
                #[trigger] plan.remeasure@[j])
            &&& plan.restored is Some <==> saved is Some && saved->0.rows is Some
                && saved->0.rows->0@.len() == new_rows.len() && forall|i: int|
                0 <= i < new_rows.len() ==> (#[trigger] saved->0.rows->0@[i])@ == new_rows[i].key@
            &&& plan.restored is Some ==> plan.restored == Some(saved->0.offset)
            &&& after.lists@.dom() == before.lists@.dom().insert(path)
            &&& after.lists@[path].state == plan.list
            &&& after.lists@[path].rows == rows
            &&& after.lists@[path].anchor == anchor
            &&& after.lists@[path].measured_width == (if known {
                before.lists@[path].measured_width
            } else {
                None
            })
            &&& forall|other: Seq<u64>|
                other != path && #[trigger] before.lists@.dom().contains(other)
                    ==> after.lists@[other] == before.lists@[other]
        }),
{
    let known = before.lists@.dom().contains(path);
    let old_rows = rows_at(before, path);
    let new_rows = rows@;
    assert(rows.len() == new_rows.len());
    assert(new_rows.len() <= usize::MAX);
    assert(old_rows.len() <= usize::MAX) by {
        if known {
            assert(before.lists@[path].rows.len() == old_rows.len());
        }
    }
    a_splice_keeps_the_rows_it_leaves_alone(old_rows, new_rows);
    let (from, to, upto) = splice_of(old_rows, new_rows);
    prefix_shape(old_rows, new_rows, 0);
    prefix_ends(old_rows, new_rows, 0);
    suffix_shape(old_rows, new_rows, from, 0);
    suffix_ends(old_rows, new_rows, from, 0);
    assert(parts_at(old_rows, new_rows, from, to, upto)) by {
        assert forall|i: int| upto <= i < new_rows.len() implies (#[trigger] new_rows[i]).key@
            == old_rows[to + i - upto].key@ by {
            assert(new_rows[i].key@ == old_rows[i + old_rows.len() - new_rows.len()].key@);
        }
    }
    remeasured_are_redrawn(old_rows, new_rows, new_rows.len() as int);
    assert forall|index: usize| #![trigger plan.remeasure@.contains(index)]
        plan.remeasure@.contains(index) <==> {
            ||| index < from && old_rows[index as int].face != new_rows[index as int].face
            ||| upto <= index < new_rows.len() && old_rows[to + index - upto].face
                != new_rows[index as int].face
        } by {
        assert(plan.remeasure@.contains(index) <==> to_remeasure(
            old_rows,
            new_rows,
            new_rows.len() as int,
        ).contains(index));
    }
}

/// A frame known by the keys of the last one changes nothing but what is drawn:
/// the rows measured again are exactly those whose face is another.
pub proof fn the_same_keys_measure_what_draws_something_else(
    before: ViewTree,
    after: ViewTree,
    path: Seq<u64>,
    rows: Vec<VirtualRow>,
    anchor: ScrollAnchor,
    follow: bool,
    saved: Option<ScrollPresentation>,
    fresh: u64,
    plan: VirtualPlan,
)
    requires
        brought_up(before, after, path, rows, anchor, follow, saved, fresh, plan),
        before.lists@.dom().contains(path),
        before.lists@[path].rows@.len() == rows@.len(),
        forall|i: int|
            0 <= i < rows@.len() ==> (#[trigger] rows@[i]).key@
                == before.lists@[path].rows@[i].key@,
    ensures
        plan.change is Nothing,
        forall|index: usize|
            #![trigger plan.remeasure@.contains(index)]
            plan.remeasure@.contains(index) <==> index < rows@.len()
                && before.lists@[path].rows@[index as int].face != rows@[index as int].face,
{
    let old_rows = before.lists@[path].rows@;
    assert(rows.len() == rows@.len());
    assert forall|i: int| 0 <= i < old_rows.len() implies (#[trigger] old_rows[i]).key@
        == rows@[i].key@ by {
        assert(rows@[i].key@ == old_rows[i].key@);
    }
    the_same_keys_splice_nothing(old_rows, rows@);
    remeasured_are_redrawn(old_rows, rows@, rows@.len() as int);
    assert forall|index: usize| #![trigger plan.remeasure@.contains(index)]
        plan.remeasure@.contains(index) <==> index < rows@.len() && old_rows[index as int].face
            != rows@[index as int].face by {
        assert(plan.remeasure@.contains(index) <==> to_remeasure(
            old_rows,
            rows@,
            rows@.len() as int,
        ).contains(index));
    }
}

impl ViewTree {
    /// Brings the native list at `path` up to `rows`. A column drawn there for
    /// the first time gets the list `fresh`.
    pub fn virtual_scroll(
        &mut self,
        path: &[u64],
        rows: Vec<VirtualRow>,
        anchor: ScrollAnchor,
        follow: bool,
        saved: Option<ScrollPresentation>,
        fresh: u64,
    ) -> (plan: VirtualPlan)
        ensures
            brought_up(
                *old(self),
                *final(self),
                path@,
                rows,
                anchor,
                follow,
                saved,
                fresh,
                plan,
            ),
    {
        let restored: Option<u64> = match &saved {
            Some(saved) => match &saved.rows {
                Some(keys) => if keys_match(keys, &rows) {
                    Some(saved.offset)
                } else {
                    None
                },
                None => None,
            },
            None => None,
        };
        let key = path_of(path);
        let known = self.lists.remove(&key);
        let (list, made, old_rows, measured_width) = match known {
            Some(known) => (known.state, None, known.rows, known.measured_width),
            None => {
                let end = anchor == ScrollAnchor::End;
                let made = if end {
                    Alignment::Bottom
                } else {
                    Alignment::Top
                };
                (fresh, Some(made), Vec::new(), None)
            },
        };
        assert(old_rows@ =~= rows_at(*old(self), path@));
        let (prefix, old_end, new_end) = splice(&old_rows, &rows);
        let change = if prefix == old_end && prefix == new_end {
            Change::Nothing
        } else if old_rows.len() == 0 {
            Change::Reset { count: rows.len() }
        } else {
            Change::Splice { from: prefix, to: old_end, count: new_end - prefix }
        };
        let remeasure = remeasured(&old_rows, &rows, prefix, old_end, new_end);
        let column = VirtualScroll { state: list, rows, anchor, measured_width };
        let ghost kept = column;
        self.lists.insert(key, column);
        assert(old(self).lists@.remove(path@).insert(path@, kept) =~= old(self).lists@.insert(
            path@,
            kept,
        ));
        VirtualPlan { list, made, change, remeasure, follow, restored }
    }
}

// ---------- a virtual column, measured ----------
/// The height a list takes its rows for until it has seen them.
#[derive(Clone, Copy, Debug, PartialEq, Eq, Structural)]
pub enum Estimate {
    /// The first row's, as its guest gives it, and its gap.
    FirstRow,
    /// 44 points, where there is no row.
    Usual,
}

/// What a list measured at a new width is given anew: a new width has it
/// forget every height it was told, though not those it has seen.
#[derive(Clone, Copy, Debug, PartialEq, Eq, Structural)]
pub struct Remeasured {
    pub list: u64,
    pub estimate: Estimate,
    /// The offset to put back, or as near as it goes.
    pub restored: Option<u64>,
}

/// Whether taking in that the column at `path` was laid out at `width` comes to
/// `again` and leaves the view as `after`.
pub open spec fn measured_at(
    before: ViewTree,
    path: Seq<u64>,
    width: u64,
    restored: Option<u64>,
    after: ViewTree,
    again: Option<Remeasured>,
) -> bool {
    &&& again is Some <==> before.lists@.dom().contains(path) && before.lists@[path].measured_width != Some(width)
    &&& again matches Some(again) ==> again == (Remeasured {
        list: before.lists@[path].state,
        estimate: if before.lists@[path].rows@.len() > 0 {
            Estimate::FirstRow
        } else {
            Estimate::Usual
        },
        restored,
    })
    &&& after == (ViewTree {
        lists: after.lists,
        stale: before.stale || again is Some,
        ..before
    })
    &&& after.lists@ == (if again is Some {
        before.lists@.insert(
            path,
            VirtualScroll { measured_width: Some(width), ..before.lists@[path] },
        )
    } else {
        before.lists@
    })
}

impl ViewTree {
    /// Takes in that the column at `path` was laid out at `width`, `restored`
    /// being the offset its last frame had to put back. Only a width other
    /// than the one last measured does anything: it is kept, and the list is
    /// estimated again and put back.
    pub fn measured(&mut self, path: &[u64], width: u64, restored: Option<u64>) -> (again: Option<
        Remeasured,
    >)
        ensures
            measured_at(*old(self), path@, width, restored, *final(self), again),
    {
        let key = path_of(path);
        let anew = match self.lists.get(&key) {
            Some(column) => column.measured_width != Some(width),
            None => false,
        };
        if !anew {
            return None;
        }
        let known = self.lists.remove(&key);
        match known {
            Some(known) => {
                let estimate = if known.rows.len() > 0 {
                    Estimate::FirstRow
                } else {
                    Estimate::Usual
                };
                let list: u64 = known.state;
                let column = VirtualScroll { measured_width: Some(width), ..known };
                let ghost kept = column;
                self.lists.insert(key, column);
                assert(old(self).lists@.remove(path@).insert(path@, kept) =~= old(
                    self,
                ).lists@.insert(path@, kept));
                self.stale = true;
                Some(Remeasured { list, estimate, restored })
            },
            None => None,
        }
    }
}

impl ViewTree {
    /// Whom the column at `path` tells where it stands, once it was scrolled,
    /// and from which end it measures that: its handler, if it has one, while
    /// the column is still kept.
    pub fn column_scrolled(&self, path: &[u64], handler: Option<u32>) -> (told: Option<(u32, Sense)>)
        ensures
            told == (match handler {
                Some(handler) => if self.lists@.dom().contains(path@) {
                    Some((handler, sense_of(self.lists@[path@].anchor)))
                } else {
                    None
                },
                None => None,
            }),
    {
        let handler: u32 = match handler {
            Some(handler) => handler,
            None => {
                return None;
            },
        };
        match self.lists.get(&path_of(path)) {
            Some(column) => Some((handler, sense(column.anchor))),
            None => None,
        }
    }
}

// ---------- one scroller, drawn ----------
/// A scroll node, but its content and style.
#[derive(Clone, Copy, Debug, PartialEq, Eq, Structural)]
pub struct ScrollNode {
    pub direction: ScrollDirection,
    pub anchor_x: ScrollAnchor,
    pub anchor_y: ScrollAnchor,
    pub auto_scroll: bool,
    pub bar_hidden: bool,
}

/// Where a scroller's bar is drawn. A vertical bar is the scroller's own
/// child, over its bounds and out of its layout; the others stand in a frame
/// around it.
#[derive(Clone, Copy, Debug, PartialEq, Eq, Structural)]
pub enum Bar {
    Hidden,
    Inside,
    FramedAcross,
    FramedBoth,
}

/// A scroller as a frame draws it.
#[derive(Debug)]
pub enum Scroller {
    /// A virtual column.
    Column(VirtualPlan),
    /// A pane: its handle, its bar, and where it stood when last put away.
    Pane { scroll: u64, bar: Bar, saved: Option<ScrollPresentation> },
}

/// The bar `node` shows.
pub open spec fn bar_of(node: ScrollNode) -> Bar {
    if node.bar_hidden {
        Bar::Hidden
    } else {
        match node.direction {
            ScrollDirection::Vertical => Bar::Inside,
            ScrollDirection::Horizontal => Bar::FramedAcross,
            ScrollDirection::Both => Bar::FramedBoth,
        }
    }
}

/// What was put away at `path`, when it was put away by a scroller like
/// `node`.
pub open spec fn saved_for(tree: ViewTree, path: Seq<u64>, node: ScrollNode) -> Option<
    ScrollPresentation,
> {
    if tree.presentation.scrolls@.dom().contains(path) {
        let saved = tree.presentation.scrolls@[path];
        if saved.direction == node.direction && saved.anchors == (node.anchor_x, node.anchor_y) {
            Some(saved)
        } else {
            None
        }
    } else {
        None
    }
}

/// The view with nothing put away at `path` any more.
pub open spec fn spent(before: ViewTree, after: ViewTree, path: Seq<u64>) -> bool {
    &&& after.presentation.scrolls@ == before.presentation.scrolls@.remove(path)
    &&& after == (ViewTree {
        presentation: crate::render::view::Presentation {
            scrolls: after.presentation.scrolls,
            ..before.presentation
        },
        ..before
    })
}

/// Whether drawing the scroller `node` at the path being drawn comes to `drawn`
/// and leaves the view as `after`.
pub open spec fn scroller_drawn(
    before: ViewTree,
    node: ScrollNode,
    rows: Option<Vec<VirtualRow>>,
    fresh: u64,
    after: ViewTree,
    drawn: Scroller,
) -> bool {
    let path = before.authored_path@;
    let saved = saved_for(before, path, node);
    exists|between: ViewTree|
        #[trigger] spent(before, between, path) && match rows {
            Some(rows) if node.direction == ScrollDirection::Vertical => drawn matches Scroller::Column(
                plan,
            ) && brought_up(
                between,
                after,
                path,
                rows,
                node.anchor_y,
                node.auto_scroll,
                saved,
                fresh,
                plan,
            ),
            _ => {
                let handle = if before.scrolls@.dom().contains(path) {
                    before.scrolls@[path]
                } else {
                    fresh
                };
                &&& drawn == Scroller::Pane { scroll: handle, bar: bar_of(node), saved }
                &&& after.scrolls@ == before.scrolls@.insert(path, handle)
                &&& after == (ViewTree {
                    scrolls: after.scrolls,
                    ..between
                })
            },
        }
}

impl ViewTree {
    /// Draws the scroller at the path being drawn. `rows` are its content's,
    /// where that is a column of rows; a scroller drawn there for the first
    /// time gets the native object `fresh`.
    pub fn scroll(&mut self, node: ScrollNode, rows: Option<Vec<VirtualRow>>, fresh: u64) -> (drawn:
        Scroller)
        ensures
            scroller_drawn(*old(self), node, rows, fresh, *final(self), drawn),
    {
        let path = path_of(self.authored_path.as_slice());
        let put_away = self.presentation.scrolls.remove(&path);
        let saved = match put_away {
            Some(saved) => if saved.direction == node.direction && saved.anchors.0 == node.anchor_x
                && saved.anchors.1 == node.anchor_y {
                Some(saved)
            } else {
                None
            },
            None => None,
        };
        let ghost between = *self;
        assert(spent(*old(self), between, path@));
        match rows {
            Some(rows) if node.direction == ScrollDirection::Vertical => {
                let plan = self.virtual_scroll(
                    path.as_slice(),
                    rows,
                    node.anchor_y,
                    node.auto_scroll,
                    saved,
                    fresh,
                );
                Scroller::Column(plan)
            },
            _ => {
                let scroll: u64 = match self.scrolls.get(&path) {
                    Some(scroll) => *scroll,
                    None => fresh,
                };
                self.scrolls.insert(path, scroll);
                let bar = if node.bar_hidden {
                    Bar::Hidden
                } else {
                    match node.direction {
                        ScrollDirection::Vertical => Bar::Inside,
                        ScrollDirection::Horizontal => Bar::FramedAcross,
                        ScrollDirection::Both => Bar::FramedBoth,
                    }
                };
                Scroller::Pane { scroll, bar, saved }
            },
        }
    }
}

// ---------- where a pane stands after a frame ----------
/// Where an axis stood in the frame before, as far as it matters now: within
/// two points of its end, and off its start.
#[derive(Clone, Copy, Debug, PartialEq, Eq, Structural)]
pub struct Stood {
    pub at_end: bool,
    pub scrolled: bool,
}

/// Where an axis goes.
#[derive(Clone, Copy, Debug, PartialEq, Eq, Structural)]
pub enum Move {
    Stay,
    /// To the end of its range.
    ToEnd,
    /// By as much as its range grew, so that what was in view stays there.
    Keep,
    /// Back where it stood when it was put away, or as near as it goes.
    Restore,
}

/// Where one axis goes: to its end when it starts there or follows it, with
/// what was in view when it keeps to that, and nowhere otherwise.
pub open spec fn axis_move(previous: Option<Stood>, anchor: ScrollAnchor, follow: bool) -> Move {
    match previous {
        None => if anchor == ScrollAnchor::End {
            Move::ToEnd
        } else {
            Move::Stay
        },
        Some(stood) => if follow && stood.at_end {
            Move::ToEnd
        } else if anchor == ScrollAnchor::Keep && stood.scrolled {
            Move::Keep
        } else {
            Move::Stay
        },
    }
}

/// Whether a pane drawn for the first time goes back where `saved` says.
pub open spec fn restores(
    previous: Option<(Stood, Stood)>,
    saved: Option<ScrollPresentation>,
) -> bool {
    previous is None && saved is Some && saved->0.rows is None
}

fn move_axis(previous: Option<Stood>, anchor: ScrollAnchor, follow: bool) -> (next: Move)
    ensures
        next == axis_move(previous, anchor, follow),
{
    match previous {
        None => if anchor == ScrollAnchor::End {
            Move::ToEnd
        } else {
            Move::Stay
        },
        Some(stood) => if follow && stood.at_end {
            Move::ToEnd
        } else if anchor == ScrollAnchor::Keep && stood.scrolled {
            Move::Keep
        } else {
            Move::Stay
        },
    }
}

/// Where both axes of a pane go.
pub fn settle(
    previous: Option<(Stood, Stood)>,
    node: ScrollNode,
    saved: &Option<ScrollPresentation>,
) -> (moves: (Move, Move))
    ensures
        moves == (if restores(previous, *saved) {
            (Move::Restore, Move::Restore)
        } else {
            (
                axis_move(
                    match previous {
                        Some((x, _)) => Some(x),
                        None => None,
                    },
                    node.anchor_x,
                    node.auto_scroll,
                ),
                axis_move(
                    match previous {
                        Some((_, y)) => Some(y),
                        None => None,
                    },
                    node.anchor_y,
                    node.auto_scroll,
                ),
            )
        }),
{
    if previous.is_none() {
        if let Some(saved) = saved {
            if saved.rows.is_none() {
                return (Move::Restore, Move::Restore);
            }
        }
    }
    let (x, y) = match previous {
        Some((x, y)) => (Some(x), Some(y)),
        None => (None, None),
    };
    (
        move_axis(x, node.anchor_x, node.auto_scroll),
        move_axis(y, node.anchor_y, node.auto_scroll),
    )
}

/// Whom a pane tells where it stands: its handler, the first time it is
/// measured and whenever its place or its range is another than before.
pub fn report(known: bool, moved: bool, handler: Option<u32>) -> (told: Option<u32>)
    ensures
        told == (if !known || moved {
            handler
        } else {
            None
        }),
{
    if !known || moved {
        handler
    } else {
        None
    }
}

/// Whether taking in where the pane at `path` stands tells `told` and leaves
/// the view as `after`.
pub open spec fn placed_at(
    before: ViewTree,
    path: Seq<u64>,
    stood: u64,
    next: u64,
    maximum: u64,
    handler: Option<u32>,
    after: ViewTree,
    told: Option<u32>,
) -> bool {
    &&& told == (if before.scroll_positions@.dom().contains(path) && before.scroll_positions@[path] == (Position { offset: next, maximum }) {
        None
    } else {
        handler
    })
    &&& after.scroll_positions@ == before.scroll_positions@.insert(
        path,
        Position { offset: next, maximum },
    )
    &&& after == (ViewTree {
        scroll_positions: after.scroll_positions,
        stale: before.stale || next != stood,
        ..before
    })
}

impl ViewTree {
    /// Takes in where the pane at `path` stands after a frame: it stood at
    /// `stood`, it is to stand at `next`, and it can go as far as `maximum`.
    /// That is the record the next frame settles from; a pane that is moved
    /// has the view drawn again; and its handler is told where it stands
    /// unless the record was the same before.
    pub fn placed(
        &mut self,
        path: &[u64],
        stood: u64,
        next: u64,
        maximum: u64,
        handler: Option<u32>,
    ) -> (told: Option<u32>)
        ensures
            placed_at(*old(self), path@, stood, next, maximum, handler, *final(self), told),
    {
        let key = path_of(path);
        let (known, moved) = match self.scroll_positions.get(&key) {
            Some(before) => (true, before.offset != next || before.maximum != maximum),
            None => (false, false),
        };
        self.scroll_positions.insert(key, Position { offset: next, maximum });
        if next != stood {
            self.stale = true;
        }
        report(known, moved, handler)
    }
}

// ---------- what these come to ----------
/// Each row passed on stands alone in a container that is the one it was drawn
/// in, and is known, spaced and estimated as it was; none is lost or moved.
pub proof fn rows_are_wrapped_one_by_one(
    node: &Node,
    rows: Vec<DrawnRow>,
    wrapped: Vec<DrawnRow>,
    nth: int,
)
    requires
        call_ensures(wrap_virtual_rows, (node, rows), wrapped),
        0 <= nth < rows@.len(),
    ensures
        wrapped@.len() == rows@.len(),
        wrapped@[nth].key@ == rows@[nth].key@,
        wrapped@[nth].gap == rows@[nth].gap,
        wrapped@[nth].estimated_height == rows@[nth].estimated_height,
        wrapped@[nth].content.kind == node.kind,
        wrapped@[nth].content.id == node.id,
        wrapped@[nth].content.children@.len() == 1,
        wrapped@[nth].content.children@[0] == rows@[nth].content,
{
    assert(wraps(*node, rows@[nth], wrapped@[nth]));
}

/// A width is news once: a column kept there is measured again at any width but
/// the one it was last measured at, and not at the same twice. Its rows, its
/// list and its anchor stay, and so does every other column.
pub proof fn a_width_is_measured_once(
    before: ViewTree,
    path: Seq<u64>,
    width: u64,
    restored: Option<u64>,
    after: ViewTree,
    again: Option<Remeasured>,
    other: Seq<u64>,
    last: ViewTree,
    more: Option<Remeasured>,
)
    requires
        measured_at(before, path, width, restored, after, again),
        measured_at(after, path, width, restored, last, more),
    ensures
        more is None,
        last.lists@ == after.lists@ && last.stale == after.stale,
        !before.lists@.dom().contains(path) ==> again is None,
        before.lists@.dom().contains(path) && before.lists@[path].measured_width is None
            ==> again is Some,
        after.lists@.dom() =~= before.lists@.dom(),
        before.lists@.dom().contains(path) ==> {
            &&& after.lists@[path].measured_width == Some(width)
            &&& after.lists@[path].rows == before.lists@[path].rows
            &&& after.lists@[path].state == before.lists@[path].state
            &&& after.lists@[path].anchor == before.lists@[path].anchor
        },
        other != path && before.lists@.dom().contains(other) ==> after.lists@[other]
            == before.lists@[other],
        again is Some ==> after.stale,
        again is None ==> after.stale == before.stale,
        again matches Some(again) ==> {
            &&& again.list == before.lists@[path].state
            &&& again.restored == restored
            &&& again.estimate is Usual <==> before.lists@[path].rows@.len() == 0
        },
{
}

/// A column tells its handler where it stands while it is kept, measured from
/// its end only where it is anchored there.
pub proof fn a_column_tells_its_handler(
    tree: &ViewTree,
    path: &[u64],
    handler: Option<u32>,
    told: Option<(u32, Sense)>,
)
    requires
        call_ensures(ViewTree::column_scrolled, (tree, path, handler), told),
    ensures
        told is Some <==> handler is Some && tree.lists@.dom().contains(path@),
        told matches Some((to, from)) ==> Some(to) == handler && (from is FromEnd
            <==> tree.lists@[path@].anchor is End),
{
}

/// A scroller of rows that goes up and down is a column, and every other one a
/// pane, its bar where it goes: inside for up and down, framed for across and
/// for both, and none where it is hidden. What was put away by a scroller of
/// the same direction and anchors is handed over, once; by another, dropped.
pub proof fn a_scroller_is_drawn_as_what_it_is(
    before: ViewTree,
    node: ScrollNode,
    rows: Option<Vec<VirtualRow>>,
    fresh: u64,
    after: ViewTree,
    drawn: Scroller,
)
    requires
        scroller_drawn(before, node, rows, fresh, after, drawn),
    ensures
        drawn is Column <==> rows is Some && node.direction is Vertical,
        !after.presentation.scrolls@.dom().contains(before.authored_path@),
        drawn matches Scroller::Pane { scroll, bar, saved } ==> {
            let path = before.authored_path@;
            &&& bar is Hidden <==> node.bar_hidden
            &&& !node.bar_hidden ==> (bar is Inside <==> node.direction is Vertical)
            &&& !node.bar_hidden ==> (bar is FramedAcross <==> node.direction is Horizontal)
            &&& !node.bar_hidden ==> (bar is FramedBoth <==> node.direction is Both)
            &&& after.scrolls@.dom().contains(path) && after.scrolls@[path] == scroll
            &&& before.scrolls@.dom().contains(path) ==> scroll == before.scrolls@[path]
            &&& !before.scrolls@.dom().contains(path) ==> scroll == fresh
            &&& forall|other: Seq<u64>|
                other != path && #[trigger] before.scrolls@.dom().contains(other)
                    ==> after.scrolls@.dom().contains(other) && after.scrolls@[other]
                    == before.scrolls@[other]
            &&& saved is Some <==> before.presentation.scrolls@.dom().contains(path)
                && before.presentation.scrolls@[path].direction == node.direction
                && before.presentation.scrolls@[path].anchors.0 == node.anchor_x
                && before.presentation.scrolls@[path].anchors.1 == node.anchor_y
            &&& saved matches Some(saved) ==> saved == before.presentation.scrolls@[path]
            &&& after.lists == before.lists
        },
        forall|other: Seq<u64>|
            other != before.authored_path@
                && #[trigger] before.presentation.scrolls@.dom().contains(other)
                ==> after.presentation.scrolls@.dom().contains(other)
                && after.presentation.scrolls@[other] == before.presentation.scrolls@[other],
{
}

/// A column anchored at its end measures from there, follows as it is told, and
/// takes up only what a column with the same rows put away.
pub proof fn a_column_is_drawn_by_its_vertical_anchor(
    before: ViewTree,
    node: ScrollNode,
    rows: Vec<VirtualRow>,
    fresh: u64,
    after: ViewTree,
    plan: VirtualPlan,
)
    requires
        scroller_drawn(before, node, Some(rows), fresh, after, Scroller::Column(plan)),
    ensures
        after.lists@.dom().contains(before.authored_path@),
        after.lists@[before.authored_path@].anchor == node.anchor_y,
        after.lists@[before.authored_path@].rows == rows,
        after.lists@[before.authored_path@].state == plan.list,
        before.lists@.dom().contains(before.authored_path@) ==> plan.list
            == before.lists@[before.authored_path@].state,
        !before.lists@.dom().contains(before.authored_path@) ==> plan.list == fresh,
        plan.follow == node.auto_scroll,
        plan.restored is Some ==> before.presentation.scrolls@.dom().contains(before.authored_path@)
            && before.presentation.scrolls@[before.authored_path@].direction == node.direction
            && before.presentation.scrolls@[before.authored_path@].anchors == (
            node.anchor_x,
            node.anchor_y,
        ) && plan.restored == Some(before.presentation.scrolls@[before.authored_path@].offset),
        after.scrolls == before.scrolls,
{
}

/// Where a pane goes after a frame. Drawn for the first time it goes back where
/// a pane was put away, on both axes; else each axis goes to its end where it
/// is anchored there, and stays elsewhere. Drawn before, an axis follows its
/// end from there and only so; kept to what was in view it grows with its
/// range, once it is off its start; and nothing is restored.
pub proof fn a_pane_settles_axis_by_axis(
    previous: Option<(Stood, Stood)>,
    node: ScrollNode,
    saved: &Option<ScrollPresentation>,
    moves: (Move, Move),
)
    requires
        call_ensures(settle, (previous, node, saved), moves),
    ensures
        moves.0 is Restore <==> moves.1 is Restore,
        moves.0 is Restore <==> previous is None && *saved is Some && saved->0.rows is None,
        previous is None && !(moves.0 is Restore) ==> {
            &&& moves.0 is ToEnd <==> node.anchor_x is End
            &&& moves.1 is ToEnd <==> node.anchor_y is End
            &&& moves.0 !is Keep && moves.1 !is Keep
        },
        previous matches Some((x, y)) ==> {
            &&& moves.0 is ToEnd <==> node.auto_scroll && x.at_end
            &&& moves.1 is ToEnd <==> node.auto_scroll && y.at_end
            &&& moves.0 is Keep <==> !(node.auto_scroll && x.at_end) && node.anchor_x is Keep
                && x.scrolled
            &&& moves.1 is Keep <==> !(node.auto_scroll && y.at_end) && node.anchor_y is Keep
                && y.scrolled
        },
{
}

/// A pane's place is on record until the next frame's, and its handler hears of
/// it exactly when the record is news.
pub proof fn a_place_is_told_once(
    before: ViewTree,
    path: Seq<u64>,
    stood: u64,
    next: u64,
    maximum: u64,
    handler: Option<u32>,
    after: ViewTree,
    told: Option<u32>,
    other: Seq<u64>,
    again: ViewTree,
    retold: Option<u32>,
)
    requires
        placed_at(before, path, stood, next, maximum, handler, after, told),
        placed_at(after, path, next, next, maximum, handler, again, retold),
    ensures
        retold is None,
        again.stale == after.stale,
        after.scroll_positions@.dom().contains(path),
        after.scroll_positions@[path].offset == next,
        after.scroll_positions@[path].maximum == maximum,
        other != path && before.scroll_positions@.dom().contains(other)
            ==> after.scroll_positions@.dom().contains(other) && after.scroll_positions@[other]
            == before.scroll_positions@[other],
        told is Some ==> told == handler,
        handler is Some ==> (told is Some <==> after.scroll_positions@ != before.scroll_positions@),
        next != stood ==> after.stale,
        next == stood ==> after.stale == before.stale,
{
    let place = Position { offset: next, maximum };
    if before.scroll_positions@.dom().contains(path) && before.scroll_positions@[path] == place {
        assert(before.scroll_positions@.insert(path, place) =~= before.scroll_positions@);
    } else if after.scroll_positions@ == before.scroll_positions@ {
        assert(before.scroll_positions@.insert(path, place).dom().contains(path));
        assert(before.scroll_positions@.insert(path, place)[path] == place);
    }
}

/// A pane not seen before always tells its handler where it stands.
pub proof fn a_first_place_is_told(known: bool, moved: bool, handler: Option<u32>, told: Option<u32>)
    requires
        call_ensures(report, (known, moved, handler), told),
    ensures
        !known ==> told == handler,
        moved ==> told == handler,
        known && !moved ==> told is None,
{
}

} // verus!
