//! The desk: a menu bar across the top, the open programs' windows under it.

use vstd::prelude::*;

use crate::shell::WindowKind;
use crate::shell::menubar::Facts;
use crate::shell::menubar::Holder;
use crate::shell::menubar::Overlay;
use crate::shell::menubar::Popover;
use crate::shell::menubar::RailRow;
use crate::text::same_text;

verus! {

/// A window's panes, as far as drawing the desk in it is a decision.
#[derive(Debug)]
pub struct Layout {
    /// Whether the person, or an earlier frame, has opened anything in it.
    pub initialized: bool,
    /// Whether the desk measures what it did.
    pub measured: bool,
    /// The modules its panes show.
    pub panes: Vec<String>,
    pub focused: usize,
}

/// What drawing the desk does.
#[derive(Debug)]
pub struct Console {
    /// Whether another frame is asked for, as something is still loading.
    pub animate: bool,
    /// The program an untouched console opens.
    pub seed: Option<String>,
    /// Whether the model is told the desk's size, and the seed.
    pub tell: bool,
    pub bar: bool,
    pub overlay: Option<Overlay>,
    /// Whether the search field keeps the focus it took.
    pub keeps_search: bool,
}

/// Whether something listed is still loading.
pub open spec fn loading(rail: Seq<RailRow>) -> bool {
    exists|i: int|
        0 <= i < rail.len() && ((#[trigger] rail[i]).note matches Some(note) && note@ == "Loading"@)
}

/// The first program with anything in it, from `from` on.
pub open spec fn first_program(rail: Seq<RailRow>, from: int) -> Option<Seq<char>>
    decreases rail.len() - from,
{
    if from >= rail.len() {
        None
    } else if !rail[from].empty {
        Some(rail[from].module@)
    } else {
        first_program(rail, from + 1)
    }
}

/// The program an untouched console opens: the one last in use, or the first
/// there is.
pub open spec fn seed_of(
    kind: WindowKind,
    layout: Layout,
    active: Option<String>,
    rail: Seq<RailRow>,
) -> Option<Seq<char>> {
    if kind == WindowKind::Console && !layout.initialized {
        match active {
            Some(module) => Some(module@),
            None => first_program(rail, 0),
        }
    } else {
        None
    }
}

fn is_loading(rail: &Vec<RailRow>) -> (yes: bool)
    ensures
        yes == loading(rail@),
{
    let mut at: usize = 0;
    while at < rail.len()
        invariant
            at <= rail@.len(),
            forall|i: int|
                0 <= i < at ==> !((#[trigger] rail@[i]).note matches Some(note) && note@
                    == "Loading"@),
        decreases rail@.len() - at,
    {
        if let Some(note) = &rail[at].note {
            if same_text(note.as_str(), "Loading") {
                assert(rail@[at as int].note matches Some(note) && note@ == "Loading"@);
                return true;
            }
        }
        at += 1;
    }
    false
}

fn program(rail: &Vec<RailRow>) -> (module: Option<String>)
    ensures
        match (module, first_program(rail@, 0)) {
            (Some(module), Some(name)) => module@ == name,
            (None, None) => true,
            _ => false,
        },
{
    let mut at: usize = 0;
    while at < rail.len()
        invariant
            at <= rail@.len(),
            first_program(rail@, 0) == first_program(rail@, at as int),
        decreases rail@.len() - at,
    {
        if !rail[at].empty {
            return Some(rail[at].module.clone());
        }
        at += 1;
    }
    None
}

/// Draws the desk in a window of `kind`. Only the console has the bar, and
/// only over it is anything open.
pub fn console(
    kind: WindowKind,
    layout: &Layout,
    active: &Option<String>,
    rail: &Vec<RailRow>,
    overlay: Option<Overlay>,
) -> (drawn: Console)
    ensures
        drawn.animate == loading(rail@),
        match (drawn.seed, seed_of(kind, *layout, *active, rail@)) {
            (Some(seed), Some(module)) => seed@ == module,
            (None, None) => true,
            _ => false,
        },
        drawn.tell == (!layout.measured || drawn.seed is Some),
        drawn.bar == (kind == WindowKind::Console),
        drawn.overlay == (if kind == WindowKind::Console {
            overlay
        } else {
            None
        }),
        drawn.keeps_search == (overlay == Some(Overlay::Spotlight)),
{
    let is_console = kind == WindowKind::Console;
    let seed = if is_console && !layout.initialized {
        match active {
            Some(module) => Some(module.clone()),
            None => program(rail),
        }
    } else {
        None
    };
    let tell = !layout.measured || seed.is_some();
    Console {
        animate: is_loading(rail),
        seed,
        tell,
        bar: is_console,
        overlay: if is_console {
            overlay
        } else {
            None
        },
        keeps_search: overlay == Some(Overlay::Spotlight),
    }
}

// ---------- the words the bar is made of ----------
/// A program, as far as its words on the bar go: its count is left out, which
/// ticks while the bar is folded.
#[derive(Debug)]
pub struct BarRow {
    pub module: String,
    pub label: String,
    pub note: Option<String>,
    pub empty: bool,
}

/// Whose account the key in use is on, as far as words go.
#[derive(Debug)]
pub enum BarHolder {
    Unknown,
    Nobody,
    Account { number: u64, name: String },
}

/// What the bar's width was measured over: the network, the programs, who is
/// signed in.
#[derive(Debug)]
pub struct BarWords {
    pub network: String,
    pub rows: Vec<BarRow>,
    pub unlocked: bool,
    pub holder: BarHolder,
}

/// [`BarRow`], in text.
pub struct RowWords {
    pub module: Seq<char>,
    pub label: Seq<char>,
    pub note: Option<Seq<char>>,
    pub empty: bool,
}

/// [`BarWords`], in text: `holder` is the number and the name of the account,
/// `None` outside for a key not asked about yet, and inside for one with none.
#[verifier::ext_equal]
pub struct Words {
    pub network: Seq<char>,
    pub rows: Seq<RowWords>,
    pub unlocked: bool,
    pub holder: Option<Option<(u64, Seq<char>)>>,
}

/// The text a note has, when there is one.
pub open spec fn note_text(note: Option<String>) -> Option<Seq<char>> {
    match note {
        Some(note) => Some(note@),
        None => None,
    }
}

impl View for BarRow {
    type V = RowWords;

    open spec fn view(&self) -> RowWords {
        RowWords {
            module: self.module@,
            label: self.label@,
            note: note_text(self.note),
            empty: self.empty,
        }
    }
}

impl View for BarHolder {
    type V = Option<Option<(u64, Seq<char>)>>;

    open spec fn view(&self) -> Option<Option<(u64, Seq<char>)>> {
        match self {
            BarHolder::Unknown => None,
            BarHolder::Nobody => Some(None),
            BarHolder::Account { number, name } => Some(Some((*number, name@))),
        }
    }
}

impl View for BarWords {
    type V = Words;

    open spec fn view(&self) -> Words {
        Words {
            network: self.network@,
            rows: self.rows@.map_values(|row: BarRow| row@),
            unlocked: self.unlocked,
            holder: self.holder@,
        }
    }
}

/// A program's words on the bar.
pub open spec fn row_words(row: RailRow) -> RowWords {
    RowWords {
        module: row.module@,
        label: row.label@,
        note: note_text(row.note),
        empty: row.empty,
    }
}

/// The words the bar over `rail` is made of.
pub open spec fn words_of(facts: Facts, rail: Seq<RailRow>) -> Words {
    Words {
        network: facts.network@,
        rows: rail.map_values(|row: RailRow| row_words(row)),
        unlocked: facts.unlocked,
        holder: match facts.holder {
            Holder::Unknown => None,
            Holder::Nobody => Some(None),
            Holder::Account { number, name, .. } => Some(Some((number, name@))),
        },
    }
}

/// The words the bar over `rail` is made of.
pub fn bar_words(facts: &Facts, rail: &Vec<RailRow>) -> (words: BarWords)
    ensures
        words@ == words_of(*facts, rail@),
{
    let mut rows: Vec<BarRow> = Vec::new();
    let mut at: usize = 0;
    while at < rail.len()
        invariant
            at <= rail@.len(),
            rows@.len() == at,
            forall|i: int| 0 <= i < at ==> (#[trigger] rows@[i])@ == row_words(rail@[i]),
        decreases rail@.len() - at,
    {
        let row = &rail[at];
        let note = match &row.note {
            Some(note) => Some(note.clone()),
            None => None,
        };
        rows.push(
            BarRow {
                module: row.module.clone(),
                label: row.label.clone(),
                note,
                empty: row.empty,
            },
        );
        at += 1;
    }
    let holder = match &facts.holder {
        Holder::Unknown => BarHolder::Unknown,
        Holder::Nobody => BarHolder::Nobody,
        Holder::Account { number, name, .. } => BarHolder::Account {
            number: *number,
            name: name.clone(),
        },
    };
    let words = BarWords {
        network: facts.network.clone(),
        rows,
        unlocked: facts.unlocked,
        holder,
    };
    assert(words@.rows =~= words_of(*facts, rail@).rows);
    words
}

fn same_row(a: &BarRow, b: &BarRow) -> (same: bool)
    ensures
        same == (a@ == b@),
{
    let notes = match (&a.note, &b.note) {
        (Some(a), Some(b)) => same_text(a.as_str(), b.as_str()),
        (None, None) => true,
        _ => false,
    };
    notes && a.empty == b.empty && same_text(a.module.as_str(), b.module.as_str()) && same_text(
        a.label.as_str(),
        b.label.as_str(),
    )
}

fn same_rows(a: &Vec<BarRow>, b: &Vec<BarRow>) -> (same: bool)
    ensures
        same == (a@.map_values(|row: BarRow| row@) == b@.map_values(|row: BarRow| row@)),
{
    let ghost ours = a@.map_values(|row: BarRow| row@);
    let ghost theirs = b@.map_values(|row: BarRow| row@);
    if a.len() != b.len() {
        assert(ours.len() != theirs.len());
        return false;
    }
    let mut at: usize = 0;
    while at < a.len()
        invariant
            ours == a@.map_values(|row: BarRow| row@),
            theirs == b@.map_values(|row: BarRow| row@),
            a@.len() == b@.len(),
            at <= a@.len(),
            forall|i: int| 0 <= i < at ==> #[trigger] ours[i] == theirs[i],
        decreases a@.len() - at,
    {
        if !same_row(&a[at], &b[at]) {
            assert(ours[at as int] != theirs[at as int]);
            return false;
        }
        at += 1;
    }
    assert(ours =~= theirs);
    true
}

/// Whether the bar is made of the same words twice.
pub fn same_words(a: &BarWords, b: &BarWords) -> (same: bool)
    ensures
        same == (a@ == b@),
{
    let holders = match (&a.holder, &b.holder) {
        (BarHolder::Unknown, BarHolder::Unknown) => true,
        (BarHolder::Nobody, BarHolder::Nobody) => true,
        (
            BarHolder::Account { number: a_number, name: a_name },
            BarHolder::Account { number: b_number, name: b_name },
        ) => *a_number == *b_number && same_text(a_name.as_str(), b_name.as_str()),
        _ => false,
    };
    assert(holders == (a.holder@ == b.holder@));
    holders && a.unlocked == b.unlocked && same_text(a.network.as_str(), b.network.as_str())
        && same_rows(&a.rows, &b.rows)
}

/// Whether the bar is measured again, now that it is made of `words`: when it
/// was made of others before, or never measured.
pub fn measures_again(before: &Option<BarWords>, words: &BarWords) -> (again: bool)
    ensures
        again == !(before matches Some(before) && before@ == words@),
{
    match before {
        Some(before) => !same_words(before, words),
        None => true,
    }
}

/// What the programs count is no word of the bar's: however the counts differ,
/// the bar is not measured again.
pub proof fn counts_are_no_words(facts: Facts, rail: Seq<RailRow>, ticked: Seq<RailRow>)
    requires
        rail.len() == ticked.len(),
        forall|i: int|
            0 <= i < rail.len() ==> (#[trigger] ticked[i]) == (RailRow {
                badge: ticked[i].badge,
                ..rail[i]
            }),
    ensures
        words_of(facts, rail) == words_of(facts, ticked),
{
    assert(words_of(facts, rail).rows =~= words_of(facts, ticked).rows);
}

/// The module in front in a window: its focused pane's, and none where it has
/// no pane there.
pub fn front(layout: &Layout) -> (module: Option<String>)
    ensures
        match module {
            Some(module) => layout.focused < layout.panes@.len() && module@
                == layout.panes@[layout.focused as int]@,
            None => layout.focused >= layout.panes@.len(),
        },
{
    if layout.focused < layout.panes.len() {
        Some(layout.panes[layout.focused].clone())
    } else {
        None
    }
}

/// The id a hanging menu is known by, and what it reads as.
pub fn hanging(which: Popover) -> (named: (String, String))
    ensures
        match which {
            Popover::Node => named.0@ == "node-status"@ && named.1@ == "Node status"@,
            Popover::Account => named.0@ == "account-menu"@ && named.1@ == "Account"@,
            Popover::Notifications => named.0@ == "notifications"@ && named.1@ == "Notifications"@,
        },
{
    match which {
        Popover::Node => ("node-status".to_owned(), "Node status".to_owned()),
        Popover::Account => ("account-menu".to_owned(), "Account".to_owned()),
        Popover::Notifications => ("notifications".to_owned(), "Notifications".to_owned()),
    }
}

// ---------- what these come to ----------
/// A console untouched opens the program last in use, and without one the first
/// listed that has anything in it; a console that was touched opens nothing,
/// and neither does any other window.
pub proof fn an_untouched_console_opens_something(
    kind: WindowKind,
    layout: &Layout,
    active: &Option<String>,
    rail: &Vec<RailRow>,
    overlay: Option<Overlay>,
    drawn: Console,
    nth: int,
)
    requires
        call_ensures(console, (kind, layout, active, rail, overlay), drawn),
        0 <= nth <= rail@.len(),
        nth < rail@.len() ==> !rail@[nth].empty,
        forall|i: int| 0 <= i < nth ==> (#[trigger] rail@[i]).empty,
    ensures
        drawn.seed is Some ==> kind is Console && !layout.initialized,
        kind is Console && !layout.initialized ==> (drawn.seed is Some <==> *active is Some || nth
            < rail@.len()),
        drawn.seed is Some && *active is Some ==> drawn.seed->0@ == active->0@,
        drawn.seed is Some && *active is None ==> nth < rail@.len() && drawn.seed->0@
            == rail@[nth].module@,
{
    first_program_is(rail@, 0, nth);
}

proof fn first_program_is(rail: Seq<RailRow>, from: int, nth: int)
    requires
        0 <= from <= nth <= rail.len(),
        nth < rail.len() ==> !rail[nth].empty,
        forall|i: int| from <= i < nth ==> (#[trigger] rail[i]).empty,
    ensures
        nth < rail.len() ==> first_program(rail, from) == Some(rail[nth].module@),
        nth == rail.len() ==> first_program(rail, from) is None,
    decreases nth - from,
{
    if from < nth {
        assert(rail[from].empty);
        first_program_is(rail, from + 1, nth);
    }
}

/// Only the console has the bar and what is open over it; the model is told of
/// a desk whose measure or program is news; and another frame is asked for
/// while a program listed is loading.
pub proof fn the_desk_is_drawn_by_its_window(
    kind: WindowKind,
    layout: &Layout,
    active: &Option<String>,
    rail: &Vec<RailRow>,
    overlay: Option<Overlay>,
    drawn: Console,
)
    requires
        call_ensures(console, (kind, layout, active, rail, overlay), drawn),
    ensures
        drawn.bar <==> kind is Console,
        kind is Console ==> drawn.overlay == overlay,
        kind is View ==> drawn.overlay is None && drawn.seed is None,
        drawn.tell <==> !layout.measured || drawn.seed is Some,
        drawn.keeps_search <==> overlay == Some(Overlay::Spotlight),
        drawn.animate <==> exists|i: int|
            0 <= i < rail@.len() && (#[trigger] rail@[i]).note is Some && rail@[i].note->0@
                == "Loading"@,
{
    if drawn.animate {
        let i = choose|i: int|
            0 <= i < rail@.len() && ((#[trigger] rail@[i]).note matches Some(note) && note@
                == "Loading"@);
        assert(rail@[i].note is Some && rail@[i].note->0@ == "Loading"@);
    }
    if exists|i: int|
        0 <= i < rail@.len() && (#[trigger] rail@[i]).note is Some && rail@[i].note->0@
            == "Loading"@ {
        let i = choose|i: int|
            0 <= i < rail@.len() && (#[trigger] rail@[i]).note is Some && rail@[i].note->0@
                == "Loading"@;
        assert(rail@[i].note matches Some(note) && note@ == "Loading"@);
    }
}

/// The bar's words are the network's name, each program's id, label, note and
/// whether it is empty, whether a key is unlocked, and whose account it is on.
/// The bar is measured again exactly where one of these differs.
pub proof fn the_bar_is_measured_over_its_words(
    facts: &Facts,
    rail: &Vec<RailRow>,
    words: BarWords,
    other: &Facts,
    others: &Vec<RailRow>,
    before: BarWords,
    again: bool,
)
    requires
        call_ensures(bar_words, (facts, rail), words),
        call_ensures(bar_words, (other, others), before),
        call_ensures(measures_again, (&Some(before), &words), again),
    ensures
        !again ==> {
            &&& facts.network@ == other.network@
            &&& facts.unlocked == other.unlocked
            &&& rail@.len() == others@.len()
            &&& facts.holder is Unknown <==> other.holder is Unknown
            &&& facts.holder is Nobody <==> other.holder is Nobody
            &&& facts.holder is Account ==> facts.holder->Account_number
                == other.holder->Account_number && facts.holder->Account_name@
                == other.holder->Account_name@
            &&& forall|i: int|
                0 <= i < rail@.len() ==> (#[trigger] rail@[i]).module@ == others@[i].module@
                    && rail@[i].label@ == others@[i].label@ && rail@[i].empty == others@[i].empty
                    && note_text(rail@[i].note) == note_text(others@[i].note)
        },
        facts.network@ == other.network@ && facts.unlocked == other.unlocked && facts.holder
            == other.holder && rail@ == others@ ==> !again,
        words.network@ == facts.network@,
        words.rows@.len() == rail@.len(),
{
    let ours = words_of(*facts, rail@);
    let theirs = words_of(*other, others@);
    assert(words@.rows.len() == words.rows@.len());
    if !again {
        assert(ours == theirs);
        assert(ours.rows.len() == theirs.rows.len());
        assert forall|i: int| 0 <= i < rail@.len() implies (#[trigger] rail@[i]).module@
            == others@[i].module@ && rail@[i].label@ == others@[i].label@ && rail@[i].empty
            == others@[i].empty && note_text(rail@[i].note) == note_text(others@[i].note) by {
            assert(ours.rows[i] == row_words(rail@[i]));
            assert(theirs.rows[i] == row_words(others@[i]));
        }
    }
}

/// A bar that was never measured is.
pub proof fn a_bar_is_measured_at_first(words: &BarWords, again: bool)
    requires
        call_ensures(measures_again, (&None::<BarWords>, words), again),
    ensures
        again,
{
}

/// The module in front is the focused pane's, wherever there is one.
pub proof fn the_focused_pane_is_in_front(layout: &Layout, module: Option<String>)
    requires
        call_ensures(front, (layout,), module),
    ensures
        module is Some <==> layout.focused < layout.panes@.len(),
        module matches Some(module) ==> module@ == layout.panes@[layout.focused as int]@,
{
}

/// Each hanging menu has an id and a name of its own.
pub proof fn hanging_menus_are_told_apart(
    a: Popover,
    b: Popover,
    ours: (String, String),
    theirs: (String, String),
)
    requires
        call_ensures(hanging, (a,), ours),
        call_ensures(hanging, (b,), theirs),
        a != b,
    ensures
        ours.0@ != theirs.0@,
        ours.1@ != theirs.1@,
        a is Node ==> ours.1@ == "Node status"@,
        a is Account ==> ours.1@ == "Account"@,
        a is Notifications ==> ours.1@ == "Notifications"@,
{
    reveal_strlit("node-status");
    reveal_strlit("account-menu");
    reveal_strlit("notifications");
    reveal_strlit("Node status");
    reveal_strlit("Account");
    reveal_strlit("Notifications");
    assert("node-status"@.len() == 11 && "account-menu"@.len() == 12 && "notifications"@.len() == 13);
    assert("Node status"@.len() == 11 && "Account"@.len() == 7 && "Notifications"@.len() == 13);
}

} // verus!
