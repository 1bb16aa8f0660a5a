//! The plain multi-line editor: ONE native text field projecting one guest
//! document.
//!
//! What the field shows is the field's own work; what is decided here is what
//! passes between it and the guest, and when. A place in the text is the byte
//! it stands before.

use std::ops::Range;

use vstd::prelude::*;
use vstd::utf8::*;

use crate::editor::indent::indent;
use crate::render::commands::WidgetCommand;
use crate::render::keyed::AuthoredPath;
use crate::text::same_text;

verus! {

/// The tallest a field grows before it scrolls inside itself, in rows.
pub const MAX_ROWS: usize = 4096;

/// Where a guest's caret stands, and the other end of its selection.
#[derive(Clone, Copy, Debug, PartialEq, Eq, Structural)]
pub struct EditorCursor {
    pub position: usize,
    pub selection: Option<usize>,
}

/// What an edit did.
#[derive(Clone, Copy, Debug, PartialEq, Eq, Structural)]
pub enum EditorEditKind {
    Cursor,
    Backspace,
    Insert,
}

/// The guest's document as the store last has it. `pending` while an edit of
/// the field's is on its way, `options` by their number.
#[derive(Debug)]
pub struct Projection {
    pub reset: u64,
    pub pending: bool,
    pub text: Option<String>,
    pub cursor: EditorCursor,
    pub editable: bool,
    pub faulty: bool,
    pub placeholder: String,
    pub options: u64,
}

/// One mounted field and the document it projects.
pub struct TextEditor {
    pub key: AuthoredPath,
    /// The native field.
    pub input: u64,
    /// The text the field shows, as this mount has it.
    pub preview: String,
    pub cursor: EditorCursor,
    pub reset: Option<u64>,
    pub projection: Option<Projection>,
    pub fills: bool,
    /// The most rows a field that does not fill grows to.
    pub cap: Option<usize>,
    /// What assistive technology reads for the field, but its text.
    pub accessible: u64,
}

/// An edit, as the guest is told of it.
#[derive(Debug)]
pub struct Native {
    pub before: String,
    pub from: EditorCursor,
    pub after: String,
    pub to: EditorCursor,
    pub kind: EditorEditKind,
}

/// What a new projection does to the field.
#[derive(Debug)]
pub struct Sync {
    /// Whether the mount's text and caret go into the field.
    pub install: bool,
    pub editable: bool,
    pub placeholder: String,
}

/// What a command or a press does: the caret's move the guest hears of, if it
/// moved. The field takes the mount's text and caret exactly then, and focus
/// either way.
#[derive(Debug)]
pub struct Placed {
    pub told: Option<Native>,
}

/// What putting the mount's text and caret into the field takes.
#[derive(Debug)]
pub struct Install {
    pub set_value: bool,
    /// The selection to set, anchor first.
    pub select: Option<(usize, usize)>,
}

/// A keystroke, as far as Tab is concerned.
#[derive(Clone, Copy, Debug, PartialEq, Eq, Structural)]
pub struct Keystroke {
    pub tab: bool,
    pub control: bool,
    pub alt: bool,
    pub platform: bool,
    pub function: bool,
    pub shift: bool,
}

/// What a keystroke does before the field sees it.
#[derive(Debug)]
pub enum KeyDown {
    /// Nothing: it is the field's.
    Field,
    /// The guest claimed it.
    Guest,
    /// It indents, or takes an indent back.
    Indent { text: String, start: usize, end: usize },
}

// ---------- places in the text ----------
/// Where the `nth` grapheme cluster of a text begins, in its UTF-8.
pub uninterp spec fn grapheme_start(text: Seq<char>, nth: int) -> Option<int>;

/// `UnicodeSegmentation::grapheme_indices` over extended clusters: where the
/// `nth` begins, which is before the text's end, on a character's boundary,
/// and is the text's start exactly for the first. Which clusters a text has
/// is Unicode's to say and goes unsaid here.
#[verifier::external_body]
fn grapheme_offset(text: &str, nth: usize) -> (at: Option<usize>)
    ensures
        match (at, grapheme_start(text@, nth as int)) {
            (Some(at), Some(start)) => at == start,
            (None, None) => true,
            _ => false,
        },
        at matches Some(at) ==> at < encode_utf8(text@).len() && is_char_boundary(
            encode_utf8(text@),
            at as int,
        ) && (at == 0 <==> nth == 0),
        at is None && nth == 0 ==> text@.len() == 0,
{
    unicode_segmentation::UnicodeSegmentation::grapheme_indices(text, true).nth(nth).map(
        |cluster| cluster.0,
    )
}

/// The place a guest's index names: where that grapheme cluster begins, and
/// the text's end past the last.
pub open spec fn place_of(text: Seq<char>, index: int) -> int {
    match grapheme_start(text, index) {
        Some(start) => start,
        None => encode_utf8(text).len() as int,
    }
}

/// The field's selection for a guest cursor, ANCHOR first: the range runs
/// backwards when the caret is the earlier end.
pub open spec fn selection_of(cursor: EditorCursor) -> (int, int) {
    (
        match cursor.selection {
            Some(anchor) => anchor as int,
            None => cursor.position as int,
        },
        cursor.position as int,
    )
}

/// The guest cursor for a field's caret and selection, read back the same way.
pub open spec fn cursor_for(caret: usize, start: usize, end: usize) -> EditorCursor {
    EditorCursor {
        position: caret,
        selection: if start == end {
            None
        } else if caret == start {
            Some(end)
        } else {
            Some(start)
        },
    }
}

/// A cursor put into the field and read back is the cursor, unless it selects
/// from its own place to its own place.
pub proof fn a_cursor_reads_back(cursor: EditorCursor)
    requires
        cursor.selection != Some(cursor.position),
    ensures
        ({
            let (anchor, caret) = selection_of(cursor);
            let start = if anchor < caret {
                anchor
            } else {
                caret
            };
            let end = if anchor < caret {
                caret
            } else {
                anchor
            };
            cursor_for(caret as usize, start as usize, end as usize) == cursor
        }),
{
}

/// What was typed is not taken back: while an edit is on its way to the guest,
/// nothing but a reset goes into the field; and a document that says what the
/// field shows never does.
pub proof fn typing_is_not_taken_back(editor: TextEditor, projection: Projection)
    requires
        editor.reset == Some(projection.reset),
    ensures
        projection.pending ==> !editor.installs(projection),
        canonical(projection) == editor.preview@ && projection.cursor == editor.cursor
            ==> !editor.installs(projection),
{
}

/// The field's selection for a guest cursor, anchor first.
pub fn selected_range(cursor: EditorCursor) -> (range: (usize, usize))
    ensures
        (range.0 as int, range.1 as int) == selection_of(cursor),
{
    let anchor: usize = match cursor.selection {
        Some(anchor) => anchor,
        None => cursor.position,
    };
    (anchor, cursor.position)
}

/// The guest cursor for a field's caret and selection.
pub fn cursor_at(caret: usize, start: usize, end: usize) -> (cursor: EditorCursor)
    ensures
        cursor == cursor_for(caret, start, end),
{
    let anchor: usize = if caret == start {
        end
    } else {
        start
    };
    EditorCursor {
        position: caret,
        selection: if start != end {
            Some(anchor)
        } else {
            None
        },
    }
}

/// What turned `before` into `after`: nothing but the caret's move, a taking
/// away when the text is shorter, and a putting in otherwise.
pub open spec fn kind_of(before: Seq<char>, after: Seq<char>) -> EditorEditKind {
    if before == after {
        EditorEditKind::Cursor
    } else if encode_utf8(after).len() < encode_utf8(before).len() {
        EditorEditKind::Backspace
    } else {
        EditorEditKind::Insert
    }
}

/// What turned `before` into `after`.
pub fn edit_kind(before: &str, after: &str) -> (kind: EditorEditKind)
    ensures
        kind == kind_of(before@, after@),
{
    if same_text(before, after) {
        return EditorEditKind::Cursor;
    }
    let shorter = after.as_bytes().len() < before.as_bytes().len();
    if shorter {
        EditorEditKind::Backspace
    } else {
        EditorEditKind::Insert
    }
}

// ---------- the document ----------
/// Whether two projections are the same.
pub open spec fn same(a: Projection, b: Projection) -> bool {
    &&& a.reset == b.reset
    &&& a.pending == b.pending
    &&& match (a.text, b.text) {
        (Some(a), Some(b)) => a@ == b@,
        (None, None) => true,
        _ => false,
    }
    &&& a.cursor == b.cursor
    &&& a.editable == b.editable
    &&& a.faulty == b.faulty
    &&& a.placeholder@ == b.placeholder@
    &&& a.options == b.options
}

fn same_projection(a: &Projection, b: &Projection) -> (yes: bool)
    ensures
        yes == same(*a, *b),
{
    let texts = match (&a.text, &b.text) {
        (Some(a), Some(b)) => same_text(a.as_str(), b.as_str()),
        (None, None) => true,
        _ => false,
    };
    a.reset == b.reset && a.pending == b.pending && texts && a.cursor == b.cursor && a.editable
        == b.editable && a.faulty == b.faulty && same_text(
        a.placeholder.as_str(),
        b.placeholder.as_str(),
    ) && a.options == b.options
}

/// The text of a projection; nothing while the document is not here.
pub open spec fn canonical(projection: Projection) -> Seq<char> {
    match projection.text {
        Some(text) => text@,
        None => ""@,
    }
}

impl TextEditor {
    /// Whether `projection` goes into the field: a reset always does, and a
    /// document that says something else does once no edit is in flight.
    /// Until then the guest's copy is behind what was typed.
    pub open spec fn installs(self, projection: Projection) -> bool {
        self.reset != Some(projection.reset) || (!projection.pending && (canonical(projection)
            != self.preview@ || projection.cursor != self.cursor))
    }

    /// Whether `told` is the move of this mount's caret to `cursor`.
    pub open spec fn tells_move(self, cursor: EditorCursor, told: Native) -> bool {
        &&& told.before@ == self.preview@
        &&& told.after@ == self.preview@
        &&& told.from == self.cursor
        &&& told.to == cursor
        &&& told.kind == EditorEditKind::Cursor
    }

    /// Whether `placed`, leaving the mount as `after`, puts the caret at
    /// `cursor`: the guest is told exactly when it moved.
    pub open spec fn places(self, after: Self, cursor: EditorCursor, placed: Placed) -> bool {
        &&& after == (TextEditor { cursor, ..self })
        &&& match placed.told {
            Some(told) => cursor != self.cursor && self.tells_move(cursor, told),
            None => cursor == self.cursor,
        }
    }

    /// Whether `done`, leaving the mount as `after`, is what carrying
    /// `projection` into it comes to.
    pub open spec fn synced(
        self,
        projection: Option<Projection>,
        after: Self,
        done: Option<Sync>,
    ) -> bool {
        match projection {
            None => done is None && after == self,
            Some(projection) => if self.projection is Some && same(
                self.projection->0,
                projection,
            ) {
                done is None && after == self
            } else {
                &&& done matches Some(done) && done.install == self.installs(projection)
                    && done.editable == (projection.editable && !projection.faulty)
                    && done.placeholder@ == projection.placeholder@
                &&& after.projection == Some(projection)
                &&& after.preview@ == (if self.installs(projection) {
                    canonical(projection)
                } else {
                    self.preview@
                })
                &&& after == (TextEditor {
                    preview: after.preview,
                    cursor: if self.installs(projection) {
                        projection.cursor
                    } else {
                        self.cursor
                    },
                    reset: if self.installs(projection) {
                        Some(projection.reset)
                    } else {
                        self.reset
                    },
                    projection: Some(projection),
                    ..self
                })
            },
        }
    }

    /// Whether `told`, leaving the mount as `after`, is what the guest hears of
    /// a field that shows `text` with its caret and selection there.
    pub open spec fn observes(
        self,
        focused: bool,
        composing: bool,
        text: String,
        caret: usize,
        selected: (usize, usize),
        after: Self,
        told: Option<Native>,
    ) -> bool {
        let next = cursor_for(caret, selected.0, selected.1);
        let same = text@ == self.preview@ && next == self.cursor;
        if !focused || composing || same {
            told is None && after == self
        } else {
            &&& told matches Some(told) && told.before@ == self.preview@ && told.from
                == self.cursor && told.after@ == text@ && told.to == next && told.kind
                == kind_of(self.preview@, text@)
            &&& after == (TextEditor { preview: text, cursor: next, ..self })
        }
    }

    /// Whether `plan` is what it takes to put the mount's text and caret into a
    /// field that shows `value`, has `selected` and its caret at `caret`.
    pub open spec fn puts_in(
        self,
        value: Seq<char>,
        selected: (usize, usize),
        caret: usize,
        plan: Install,
    ) -> bool {
        &&& plan.set_value == (value != self.preview@)
        &&& {
            let (anchor, place) = selection_of(self.cursor);
            let start = if anchor < place {
                anchor
            } else {
                place
            };
            let end = if anchor < place {
                place
            } else {
                anchor
            };
            plan.select == (if (selected.0 as int, selected.1 as int) != (start, end) || caret
                != place {
                Some((anchor as usize, place as usize))
            } else {
                None
            })
        }
    }

    /// Whether taking the box given or growing up to `cap` rows leaves the mount
    /// as `after`, the field growing to `rows` where that is news.
    pub open spec fn grows(
        self,
        fills: bool,
        cap: Option<usize>,
        after: Self,
        rows: Option<usize>,
    ) -> bool {
        &&& after == (TextEditor { fills, cap, ..self })
        &&& rows == (if self.fills == fills && self.cap == cap {
            None
        } else if cap is Some && !fills {
            cap
        } else {
            Some(MAX_ROWS)
        })
    }

    /// Whether a press in the box, on the words or beside them, comes to `placed`
    /// and leaves the mount as `after`.
    pub open spec fn presses(self, on_the_words: bool, after: Self, placed: Option<Placed>) -> bool {
        match placed {
            Some(placed) => !on_the_words && self.places(
                after,
                EditorCursor {
                    position: encode_utf8(self.preview@).len() as usize,
                    selection: None,
                },
                placed,
            ),
            None => on_the_words && after == self,
        }
    }

    /// A mount of the document at `key` in the native field `input`.
    pub fn new(key: AuthoredPath, input: u64) -> (editor: Self)
        ensures
            editor.key == key,
            editor.input == input,
            editor.preview@ == ""@,
            editor.cursor == (EditorCursor { position: 0, selection: None }),
            editor.reset is None,
            editor.projection is None,
            editor.fills,
            editor.cap is None,
            editor.accessible == 0,
    {
        TextEditor {
            key,
            input,
            preview: "".to_owned(),
            cursor: EditorCursor { position: 0, selection: None },
            reset: None,
            projection: None,
            fills: true,
            cap: None,
            accessible: 0,
        }
    }

    /// Whether the field has focus, `focused` being what has it.
    pub fn is_focused(&self, focused: Option<u64>) -> (yes: bool)
        ensures
            yes == (focused == Some(self.input)),
    {
        focused == Some(self.input)
    }

    /// Whether the field takes the box it was given, or the room its own words
    /// need up to `cap` rows. The rows it grows to from here on, when that is
    /// news.
    pub fn set_fills(&mut self, fills: bool, cap: Option<usize>) -> (rows: Option<usize>)
        ensures
            old(self).grows(fills, cap, *final(self), rows),
    {
        if self.fills == fills && self.cap == cap {
            return None;
        }
        self.fills = fills;
        self.cap = cap;
        match cap {
            Some(rows) if !fills => Some(rows),
            _ => Some(MAX_ROWS),
        }
    }

    /// What assistive technology reads for the field, but its text; whether
    /// that is news.
    pub fn set_accessible(&mut self, accessible: u64) -> (news: bool)
        ensures
            *final(self) == (TextEditor { accessible, ..*old(self) }),
            news == (old(self).accessible != accessible),
    {
        let news = self.accessible != accessible;
        self.accessible = accessible;
        news
    }

    /// Carries the guest's accepted document into the mount, and says what
    /// that does to the field; nothing, when the document is the one it has.
    pub fn sync(&mut self, projection: Option<Projection>) -> (done: Option<Sync>)
        ensures
            old(self).synced(projection, *final(self), done),
    {
        let projection = match projection {
            Some(projection) => projection,
            None => {
                return None;
            },
        };
        if let Some(known) = &self.projection {
            if same_projection(known, &projection) {
                return None;
            }
        }
        let reset = self.reset != Some(projection.reset);
        let text = match &projection.text {
            Some(text) => text.clone(),
            None => "".to_owned(),
        };
        let install = reset || (!projection.pending && (!same_text(
            text.as_str(),
            self.preview.as_str(),
        ) || projection.cursor != self.cursor));
        if install {
            self.preview = text;
            self.cursor = projection.cursor;
            self.reset = Some(projection.reset);
        }
        let editable = projection.editable && !projection.faulty;
        let placeholder = projection.placeholder.clone();
        self.projection = Some(projection);
        Some(Sync { install, editable, placeholder })
    }

    /// What it takes to put the mount's text and caret into a field that
    /// shows `value`, has `selected` and its caret at `caret`.
    pub fn install(&self, value: &str, selected: (usize, usize), caret: usize) -> (plan: Install)
        ensures
            self.puts_in(value@, selected, caret, plan),
    {
        let (anchor, place) = selected_range(self.cursor);
        let start: usize = if anchor < place {
            anchor
        } else {
            place
        };
        let end: usize = if anchor < place {
            place
        } else {
            anchor
        };
        let moved = selected.0 != start || selected.1 != end || caret != place;
        Install {
            set_value: !same_text(value, self.preview.as_str()),
            select: if moved {
                Some((anchor, place))
            } else {
                None
            },
        }
    }

    /// The caret moved and nothing else: the guest hears of it as it hears of
    /// a letter.
    pub fn move_cursor(&mut self, cursor: EditorCursor) -> (told: Native)
        ensures
            *final(self) == (TextEditor { cursor, ..*old(self) }),
            old(self).tells_move(cursor, told),
    {
        let told = Native {
            before: self.preview.clone(),
            from: self.cursor,
            after: self.preview.clone(),
            to: cursor,
            kind: EditorEditKind::Cursor,
        };
        self.cursor = cursor;
        told
    }

    fn place(&mut self, cursor: EditorCursor) -> (placed: Placed)
        ensures
            old(self).places(*final(self), cursor, placed),
    {
        if cursor != self.cursor {
            let told = self.move_cursor(cursor);
            Placed { told: Some(told) }
        } else {
            Placed { told: None }
        }
    }

    /// The cursor `command` asks for, when it is one for an editor.
    pub open spec fn asked(self, command: WidgetCommand) -> Option<EditorCursor> {
        let end = encode_utf8(self.preview@).len() as usize;
        match command {
            WidgetCommand::Focus { .. } => Some(self.cursor),
            WidgetCommand::CursorFront { .. } => Some(
                EditorCursor { position: 0, selection: None },
            ),
            WidgetCommand::CursorEnd { .. } => Some(
                EditorCursor { position: end, selection: None },
            ),
            WidgetCommand::Cursor { position, .. } => Some(
                EditorCursor {
                    position: place_of(self.preview@, position as int) as usize,
                    selection: None,
                },
            ),
            WidgetCommand::SelectAll { .. } => Some(
                EditorCursor { position: end, selection: Some(0) },
            ),
            WidgetCommand::Select { start, end, .. } => Some(
                EditorCursor {
                    position: place_of(self.preview@, end as int) as usize,
                    selection: if start != end {
                        Some(place_of(self.preview@, start as int) as usize)
                    } else {
                        None
                    },
                },
            ),
            _ => None,
        }
    }

    /// The place a guest's index names.
    pub fn place_at(&self, index: u32) -> (at: usize)
        ensures
            at == place_of(self.preview@, index as int),
    {
        match grapheme_offset(self.preview.as_str(), index as usize) {
            Some(at) => at,
            None => self.preview.as_str().as_bytes().len(),
        }
    }

    /// Does what a guest's command says to the caret; `None` for a command
    /// that is not one for an editor.
    pub fn widget_command(&mut self, command: &WidgetCommand) -> (placed: Option<Placed>)
        ensures
            match (placed, old(self).asked(*command)) {
                (Some(placed), Some(cursor)) => old(self).places(*final(self), cursor, placed),
                (None, None) => *final(self) == *old(self),
                _ => false,
            },
    {
        let end: usize = self.preview.as_str().as_bytes().len();
        let cursor = match command {
            WidgetCommand::Focus { .. } => self.cursor,
            WidgetCommand::CursorFront { .. } => EditorCursor { position: 0, selection: None },
            WidgetCommand::CursorEnd { .. } => EditorCursor { position: end, selection: None },
            WidgetCommand::Cursor { position, .. } => EditorCursor {
                position: self.place_at(*position),
                selection: None,
            },
            WidgetCommand::SelectAll { .. } => EditorCursor { position: end, selection: Some(0) },
            WidgetCommand::Select { start, end, .. } => EditorCursor {
                position: self.place_at(*end),
                selection: if *start != *end {
                    Some(self.place_at(*start))
                } else {
                    None
                },
            },
            _ => {
                return None;
            },
        };
        Some(self.place(cursor))
    }

    /// A press in the box that the field itself did not take puts the caret at
    /// the text's end; one on the words is the field's.
    pub fn pressed(&mut self, on_the_words: bool) -> (placed: Option<Placed>)
        ensures
            old(self).presses(on_the_words, *final(self), placed),
    {
        if on_the_words {
            return None;
        }
        let end: usize = self.preview.as_str().as_bytes().len();
        Some(self.place(EditorCursor { position: end, selection: None }))
    }

    /// What the guest is told an input method did (`events`, by number, as it
    /// made them): all of it while the field is in use, a composition under
    /// way or not, and ahead of any edit; nothing otherwise.
    pub fn input_method(&self, focused: bool, events: Vec<u64>) -> (told: Option<Vec<u64>>)
        ensures
            told == (if focused && events@.len() > 0 {
                Some(events)
            } else {
                None
            }),
    {
        if focused && events.len() > 0 {
            Some(events)
        } else {
            None
        }
    }

    /// The field changed under the writer's hands: the edit the guest is told
    /// of, which is the difference between two documents. A field that is not
    /// in use, or still composing, or that shows what the mount has, changed
    /// nothing.
    pub fn observed(
        &mut self,
        focused: bool,
        composing: bool,
        text: String,
        caret: usize,
        selected: (usize, usize),
    ) -> (told: Option<Native>)
        ensures
            old(self).observes(focused, composing, text, caret, selected, *final(self), told),
    {
        if !focused || composing {
            return None;
        }
        let next = cursor_at(caret, selected.0, selected.1);
        let unchanged = same_text(text.as_str(), self.preview.as_str());
        if unchanged && next == self.cursor {
            return None;
        }
        let kind = edit_kind(self.preview.as_str(), text.as_str());
        let told = Native {
            before: self.preview.clone(),
            from: self.cursor,
            after: text.clone(),
            to: next,
            kind,
        };
        self.preview = text;
        self.cursor = next;
        Some(told)
    }
}

// ---------- keys ----------
/// Whether a keystroke is Tab, with Shift or without, and with nothing else.
pub open spec fn plain_tab(key: Keystroke) -> bool {
    key.tab && !key.control && !key.alt && !key.platform && !key.function
}

/// The indent a keystroke makes in `text`: Tab puts one in and Shift+Tab takes
/// one back. `None` when the key is another, or has nothing to do, and so
/// walks the focus ring; and in a field no one may write in.
pub open spec fn tabbed(
    key: Keystroke,
    text: Seq<u8>,
    start: int,
    end: int,
    writable: bool,
) -> Option<(Seq<u8>, int, int)> {
    if plain_tab(key) && writable {
        crate::editor::indent::indented(text, start, end, key.shift)
    } else {
        None
    }
}

/// Whether `done` is what a keystroke does in a field that shows the bytes
/// `text`, the selection running from `start` to `end`.
pub open spec fn goes_to(
    focused: bool,
    composing: bool,
    claimed: bool,
    key: Keystroke,
    text: Seq<u8>,
    start: int,
    end: int,
    writable: bool,
    done: KeyDown,
) -> bool {
    if !focused || composing {
        done is Field
    } else if claimed {
        done is Guest
    } else {
        match tabbed(
            key,
            text,
            start,
            end,
            writable,
        ) {
            Some((bytes, from, to)) => done matches KeyDown::Indent { text: next, start: a, end: b }
                && encode_utf8(next@) == bytes && a == from && b == to,
            None => done is Field,
        }
    }
}

/// What a keystroke does before the field sees it. Only the chords the guest
/// claimed are taken off the field, and Tab where it indents: every other key
/// is the editing engine's. A selection that Tab moves begins where a character
/// does.
pub fn key_down(
    focused: bool,
    composing: bool,
    claimed: bool,
    key: Keystroke,
    text: &str,
    selected: Range<usize>,
    writable: bool,
) -> (done: KeyDown)
    requires
        focused && !composing && !claimed && plain_tab(key) && writable ==> {
            &&& is_char_boundary(
                encode_utf8(text@),
                if selected.start <= selected.end {
                    selected.start as int
                } else {
                    selected.end as int
                },
            )
            &&& selected.start + 2 * encode_utf8(text@).len() + 2 <= usize::MAX
            &&& selected.end + 2 * encode_utf8(text@).len() + 2 <= usize::MAX
        },
    ensures
        goes_to(
            focused,
            composing,
            claimed,
            key,
            encode_utf8(text@),
            selected.start as int,
            selected.end as int,
            writable,
            done,
        ),
{
    if !focused || composing {
        return KeyDown::Field;
    }
    if claimed {
        return KeyDown::Guest;
    }
    let plain = !key.control && !key.alt && !key.platform && !key.function;
    if !key.tab || !plain || !writable {
        return KeyDown::Field;
    }
    match indent(text, selected, key.shift) {
        Some((next, moved)) => KeyDown::Indent { text: next, start: moved.start, end: moved.end },
        None => KeyDown::Field,
    }
}

// ---------- what these come to ----------
/// The guest's document shows in the field, text and caret, as soon as it may:
/// when no edit is on its way, or the guest reset it. Until then the field
/// keeps what was typed. Either way the host is told to put something in
/// exactly when what the mount holds is news.
pub proof fn a_document_shows_once_it_may(
    before: TextEditor,
    projection: Projection,
    after: TextEditor,
    done: Option<Sync>,
)
    requires
        before.synced(Some(projection), after, done),
    ensures
        done matches Some(done) ==> {
            let may = !projection.pending || before.reset != Some(projection.reset);
            &&& after.projection == Some(projection)
            &&& projection.text is Some && may ==> after.preview@ == projection.text->0@
            &&& projection.text is None && may ==> after.preview@.len() == 0
            &&& may ==> after.cursor == projection.cursor
            &&& !may ==> after.preview@ == before.preview@ && after.cursor == before.cursor
            &&& after.reset == Some(projection.reset)
            &&& done.install <==> after.preview@ != before.preview@ || after.cursor
                != before.cursor || after.reset != before.reset
            &&& done.editable <==> projection.editable && !projection.faulty
            &&& done.placeholder@ == projection.placeholder@
        },
        done is None ==> after == before && before.projection is Some,
        before.projection is None ==> done is Some,
        after.key == before.key && after.input == before.input && after.fills == before.fills
            && after.cap == before.cap && after.accessible == before.accessible,
{
    reveal_strlit("");
    if !projection.pending || before.reset != Some(projection.reset) {
        assert(canonical(projection) == after.preview@ || done is None);
    }
}

/// Only a document that differs in something is carried in; the same again
/// does nothing.
pub proof fn a_document_is_carried_in_once(
    before: TextEditor,
    projection: Projection,
    after: TextEditor,
    done: Option<Sync>,
    again: TextEditor,
    redone: Option<Sync>,
)
    requires
        before.synced(Some(projection), after, done),
        after.synced(Some(projection), again, redone),
    ensures
        redone is None,
        again == after,
        done is None ==> ({
            let known = before.projection->0;
            &&& known.reset == projection.reset && known.pending == projection.pending
            &&& known.cursor == projection.cursor && known.editable == projection.editable
            &&& known.faulty == projection.faulty && known.options == projection.options
            &&& known.placeholder@ == projection.placeholder@
            &&& canonical(known) == canonical(projection)
            &&& known.text is Some <==> projection.text is Some
        }),
{
    assert(same(projection, projection));
    assert(after.projection is Some && same(after.projection->0, projection));
}

/// The guest hears of a field in use what changed from what it was told last:
/// the two texts, the two carets, and whether letters came or went. Nothing is
/// told of a field that is not in use, is composing, or shows what was told.
pub proof fn the_guest_hears_what_changed(
    before: TextEditor,
    focused: bool,
    composing: bool,
    text: String,
    caret: usize,
    selected: (usize, usize),
    after: TextEditor,
    told: Option<Native>,
)
    requires
        before.observes(focused, composing, text, caret, selected, after, told),
    ensures
        told is Some ==> focused && !composing && after.preview@ == text@ && after.cursor.position
            == caret,
        told is None ==> after == before,
        told matches Some(told) ==> {
            &&& told.before@ == before.preview@ && told.from == before.cursor
            &&& told.after@ == after.preview@ && told.to == after.cursor
            &&& told.before@ != told.after@ || told.from != told.to
            &&& told.kind is Cursor <==> told.before@ == told.after@
            &&& told.kind is Backspace <==> encode_utf8(told.after@).len() < encode_utf8(
                told.before@,
            ).len()
        },
        focused && !composing && (text@ != before.preview@ || caret != before.cursor.position)
            ==> told is Some,
        told is Some ==> (after.cursor.selection is Some <==> selected.0 != selected.1),
        told is Some && caret == selected.0 && selected.0 != selected.1 ==> after.cursor.selection
            == Some(selected.1),
        told is Some && caret == selected.1 && selected.0 != selected.1 ==> after.cursor.selection
            == Some(selected.0),
        after.reset == before.reset && after.projection == before.projection && after.key
            == before.key && after.input == before.input,
{
    if before.preview@ == text@ {
        assert(encode_utf8(before.preview@).len() == encode_utf8(text@).len());
    }
}

/// A guest that accepts an edit as it was told of it leaves the field alone.
pub proof fn an_edit_comes_back_without_a_change(
    before: TextEditor,
    text: String,
    caret: usize,
    selected: (usize, usize),
    after: TextEditor,
    told: Native,
    accepted: Projection,
    last: TextEditor,
    done: Option<Sync>,
)
    requires
        before.observes(true, false, text, caret, selected, after, Some(told)),
        after.reset == Some(accepted.reset),
        accepted.text is Some && accepted.text->0@ == told.after@,
        accepted.cursor == told.to,
        after.synced(Some(accepted), last, done),
    ensures
        done matches Some(done) ==> !done.install,
        last.preview@ == text@,
        last.cursor == after.cursor,
{
}

/// Putting a mount into its field leaves alone what is there already: the text
/// goes in exactly when it differs, and the selection exactly when an end of
/// it or the caret does; it is set from its anchor to its caret.
pub proof fn a_field_is_given_only_what_it_lacks(
    editor: TextEditor,
    value: Seq<char>,
    selected: (usize, usize),
    caret: usize,
    plan: Install,
)
    requires
        editor.puts_in(value, selected, caret, plan),
    ensures
        plan.set_value <==> value != editor.preview@,
        plan.select matches Some((anchor, place)) ==> place == editor.cursor.position && anchor == (
        match editor.cursor.selection {
            Some(anchor) => anchor,
            None => editor.cursor.position,
        }),
        selected.0 <= selected.1 ==> (plan.select is None <==> caret == editor.cursor.position && (
        match editor.cursor.selection {
            Some(anchor) => selected == (caret, anchor) || selected == (anchor, caret),
            None => selected == (caret, caret),
        })),
{
}

/// Where each command puts the caret: at the text's start, its end, or the
/// place named, with nothing selected; over the whole text, the caret last;
/// over the two places named, unless they are one. Focus moves nothing, and
/// every other command is not one for an editor.
pub proof fn a_command_puts_the_caret_where_it_says(
    editor: TextEditor,
    command: WidgetCommand,
    after: TextEditor,
    placed: Placed,
)
    ensures
        editor.asked(command) is Some <==> command is Focus || command is CursorFront || command
            is CursorEnd || command is Cursor || command is SelectAll || command is Select,
        editor.asked(command) matches Some(cursor) && editor.places(after, cursor, placed) ==> {
            let end = encode_utf8(editor.preview@).len() as usize;
            let (caret, selected) = (after.cursor.position, after.cursor.selection);
            &&& command is Focus ==> after == editor && placed.told is None
            &&& command is CursorFront ==> caret == 0 && selected is None
            &&& command is CursorEnd ==> caret == end && selected is None
            &&& command is SelectAll ==> caret == end && selected == Some(0usize)
            &&& command matches WidgetCommand::Cursor { position, .. } ==> caret == place_of(
                editor.preview@,
                position as int,
            ) as usize && selected is None
            &&& command matches WidgetCommand::Select { start, end, .. } ==> {
                &&& caret == place_of(editor.preview@, end as int) as usize
                &&& start == end ==> selected is None
                &&& start != end ==> selected == Some(
                    place_of(editor.preview@, start as int) as usize,
                )
            }
            &&& after.preview == editor.preview && after.projection == editor.projection
                && after.reset == editor.reset
            &&& placed.told is Some <==> after.cursor != editor.cursor
            &&& placed.told matches Some(told) ==> told.before@ == editor.preview@ && told.after@
                == editor.preview@ && told.from == editor.cursor && told.to == after.cursor
                && told.kind is Cursor
        },
{
}

/// A key is the field's unless the field is in use, composes nothing, and the
/// guest claimed the key or it is Tab with no modifier but Shift in a field
/// one may write in. A claimed key is the guest's.
pub proof fn a_key_is_the_fields_but_for_tab_and_the_guests(
    focused: bool,
    composing: bool,
    claimed: bool,
    key: Keystroke,
    text: Seq<u8>,
    start: int,
    end: int,
    writable: bool,
    done: KeyDown,
)
    requires
        goes_to(focused, composing, claimed, key, text, start, end, writable, done),
    ensures
        done is Guest <==> focused && !composing && claimed,
        done is Indent ==> focused && !composing && !claimed && writable && key.tab && !key.control
            && !key.alt && !key.platform && !key.function,
{
}

/// Tab types two spaces at the caret of a field one may write in.
pub proof fn tab_types_an_indent_where_one_writes(
    key: Keystroke,
    text: Seq<u8>,
    at: int,
    done: KeyDown,
)
    requires
        key == (Keystroke {
            tab: true,
            control: false,
            alt: false,
            platform: false,
            function: false,
            shift: false,
        }),
        0 <= at <= text.len(),
        goes_to(true, false, false, key, text, at, at, true, done),
    ensures
        done matches KeyDown::Indent { text: next, start, end } && encode_utf8(next@) == text.take(
            at,
        ) + seq![32u8, 32u8] + text.skip(at) && start == at + 2 && end == at + 2,
{
    crate::editor::indent::tab_at_a_caret_types_an_indent(text, at);
}

/// Tab over a selection moves its lines in, and Shift+Tab moves them out.
pub proof fn shift_tab_moves_outward(
    key: Keystroke,
    text: Seq<u8>,
    start: int,
    end: int,
    done: KeyDown,
)
    requires
        key.tab && !key.control && !key.alt && !key.platform && !key.function,
        goes_to(true, false, false, key, text, start, end, true, done),
    ensures
        match crate::editor::indent::indented(text, start, end, key.shift) {
            None => done is Field,
            Some((bytes, from, to)) => done matches KeyDown::Indent { text: next, start: a, end: b }
                && encode_utf8(next@) == bytes && a == from && b == to,
        },
{
}

/// A press beside the words puts the caret at the text's end, and one on them
/// changes nothing here.
pub proof fn a_press_beside_the_words_ends_the_text(
    editor: TextEditor,
    on_the_words: bool,
    after: TextEditor,
    placed: Option<Placed>,
)
    requires
        editor.presses(on_the_words, after, placed),
    ensures
        placed is Some <==> !on_the_words,
        on_the_words ==> after == editor,
        !on_the_words ==> after.cursor.position == encode_utf8(editor.preview@).len() as usize
            && after.cursor.selection is None && after.preview == editor.preview,
        placed matches Some(placed) ==> (placed.told is Some <==> after.cursor != editor.cursor),
{
}

/// A field grows as far as it is told to, and as far as any field where it is
/// told no limit or takes the box it was given; saying so again is no news.
pub proof fn a_field_grows_as_far_as_it_is_told(
    editor: TextEditor,
    fills: bool,
    cap: Option<usize>,
    after: TextEditor,
    rows: Option<usize>,
    again: TextEditor,
    more: Option<usize>,
)
    requires
        editor.grows(fills, cap, after, rows),
        after.grows(fills, cap, again, more),
    ensures
        more is None,
        after.fills == fills && after.cap == cap && after.preview == editor.preview && after.cursor
            == editor.cursor,
        rows is None <==> editor.fills == fills && editor.cap == cap,
        rows is Some && !fills && cap is Some ==> rows == cap,
        rows is Some && (fills || cap is None) ==> rows == Some(4096usize),
{
}

/// An index names where its grapheme begins, and past the last the text's end.
pub proof fn an_index_names_a_place_in_the_text(editor: &TextEditor, index: u32, at: usize)
    requires
        call_ensures(TextEditor::place_at, (editor, index), at),
    ensures
        grapheme_start(editor.preview@, index as int) matches Some(start) ==> at == start,
        grapheme_start(editor.preview@, index as int) is None ==> at == encode_utf8(
            editor.preview@,
        ).len(),
{
}

/// What an input method did is told whole, and only of a field in use.
pub proof fn an_input_method_is_heard_in_a_field_in_use(
    editor: &TextEditor,
    focused: bool,
    events: Vec<u64>,
    told: Option<Vec<u64>>,
    holder: Option<u64>,
    yes: bool,
)
    requires
        call_ensures(TextEditor::input_method, (editor, focused, events), told),
        call_ensures(TextEditor::is_focused, (editor, holder), yes),
    ensures
        told is Some <==> focused && events@.len() > 0,
        told matches Some(told) ==> told@ == events@,
        yes <==> holder is Some && holder->0 == editor.input,
{
}

/// A mount that was just made shows nothing, and takes the first document it is
/// given as it is, an edit on its way or not.
pub proof fn a_new_mount_takes_its_first_document(
    key: AuthoredPath,
    input: u64,
    editor: TextEditor,
    projection: Projection,
    after: TextEditor,
    done: Option<Sync>,
)
    requires
        call_ensures(TextEditor::new, (key, input), editor),
        editor.synced(Some(projection), after, done),
    ensures
        editor.key == key && editor.input == input && editor.preview@.len() == 0,
        editor.cursor == (EditorCursor { position: 0, selection: None }),
        editor.fills && editor.cap is None,
        done is Some && done->0.install,
        projection.text is Some ==> after.preview@ == projection.text->0@,
        after.cursor == projection.cursor,
{
    reveal_strlit("");
}

/// Without a document nothing is done.
pub proof fn no_document_changes_nothing(
    before: TextEditor,
    after: TextEditor,
    done: Option<Sync>,
)
    requires
        before.synced(None, after, done),
    ensures
        done is None,
        after == before,
{
}

} // verus!
