//! The menu bar: the network, the programs as tabs, then Search, the bell,
//! the node's breath, who is signed in, and Settings.

use vstd::prelude::*;

use crate::shell::chord_label;
use crate::text::chars_of;
use crate::text::decimal_of;
use crate::text::joined;
use crate::text::joined3;
use crate::text::same_text;

verus! {

/// A program as the node lists it. `note` is what is the matter while it is
/// not simply there ("Loading", "Failed"), `badge` what it counts.
#[derive(Debug)]
pub struct RailRow {
    pub module: String,
    pub label: String,
    /// The label made readable.
    pub pretty: String,
    pub note: Option<String>,
    pub empty: bool,
    pub badge: u64,
}

/// A menu that hangs from the bar.
#[derive(Clone, Copy, Debug, PartialEq, Eq, Structural)]
pub enum Popover {
    Node,
    Account,
    Notifications,
}

/// What is open over the desk.
#[derive(Clone, Copy, Debug, PartialEq, Eq, Structural)]
pub enum Overlay {
    Spotlight,
    Approve,
    Settings,
    Network,
    Menu(Popover),
}

/// Whose account the key in use is on. A key that has none is told apart from
/// one not asked about yet.
#[derive(Debug)]
pub enum Holder {
    Unknown,
    Nobody,
    Account { number: u64, name: String, initials: String },
}

/// What the bar shows of the app.
#[derive(Debug)]
pub struct Facts {
    pub network: String,
    pub overlay: Option<Overlay>,
    pub unread: u64,
    pub connecting: bool,
    pub reconnecting: bool,
    pub height: u64,
    /// Whether a key is unlocked.
    pub unlocked: bool,
    pub holder: Holder,
    /// What "Signed in" abbreviates to.
    pub signed_in_initials: String,
}

/// A program's tab.
#[derive(Debug)]
pub struct Tab {
    pub id: String,
    pub module: String,
    /// What it reads as.
    pub name: String,
    pub shown: String,
    pub selected: bool,
    /// Whether it is drawn in full ink: it is in front, or open.
    pub lit: bool,
    pub failed: bool,
    pub badge: Option<String>,
}

/// What a click on the bar tells the model.
#[derive(Clone, Copy, Debug, PartialEq, Eq, Structural)]
pub enum Message {
    ToggleNetworkMenu,
    OpenSpotlight,
    TogglePopover(Popover),
    SignIn,
    ShowCreateAccount,
    OpenSettings,
}

/// What a click on a program's tab does.
#[derive(Debug)]
pub enum TabClick {
    /// Opens the program, in an empty focused window or its own.
    Open { module: String },
    /// Shows the program in the focused window.
    Show { module: String },
}

/// A button of the bar: its id, what it reads as, whether its menu is open,
/// and what a click on it says.
#[derive(Debug)]
pub struct Item {
    pub id: String,
    pub name: String,
    pub open: bool,
    pub message: Message,
}

/// The end of the bar that says who is signed in, and the word it shows.
#[derive(Debug)]
pub struct Who {
    pub item: Item,
    pub shown: String,
}

/// The bar.
#[derive(Debug)]
pub struct Menubar {
    pub network: Item,
    pub tabs: Vec<Tab>,
    /// Whether no program is listed at all.
    pub none_listed: bool,
    pub search: Item,
    /// Whether Search is spelled out beside its chord.
    pub search_word: bool,
    pub chord: String,
    pub bell: Item,
    /// The number on the bell.
    pub count: Option<String>,
    pub node: Item,
    /// Whether the node's breath is drawn breathing.
    pub breathing: bool,
    pub who: Who,
    pub settings: Item,
}

// ---------- what it says ----------
/// A program's name on the bar: its label, made readable while the label is
/// still the program's own id.
pub open spec fn label_shown(row: RailRow) -> Seq<char> {
    if row.note is Some {
        row.pretty@
    } else {
        row.label@
    }
}

/// The rows that get a tab.
pub open spec fn tabbed(rail: Seq<RailRow>) -> Seq<RailRow>
    decreases rail.len(),
{
    if rail.len() == 0 {
        Seq::empty()
    } else if rail.last().empty {
        tabbed(rail.drop_last())
    } else {
        tabbed(rail.drop_last()).push(rail.last())
    }
}

/// The first character of `text`, as text.
pub open spec fn first_of(text: Seq<char>) -> Seq<char> {
    text.take(
        if text.len() == 0 {
            0
        } else {
            1
        },
    )
}

/// Whether `modules` holds `module`.
pub open spec fn lists(modules: Seq<String>, module: Seq<char>) -> bool {
    exists|i: int| 0 <= i < modules.len() && (#[trigger] modules[i])@ == module
}

/// The module in front.
pub open spec fn in_front(open: Seq<String>, focused: int) -> Option<Seq<char>> {
    if 0 <= focused < open.len() {
        Some(open[focused]@)
    } else {
        None
    }
}

/// Whether `tab` is the tab of `row`, `open` being the modules open on the
/// desk and `focused` which of them is in front.
pub open spec fn is_tab(
    tab: Tab,
    row: RailRow,
    open: Seq<String>,
    focused: int,
    narrow: bool,
) -> bool {
    &&& tab.id@ == "rail/"@ + row.module@
    &&& tab.module@ == row.module@
    &&& tab.name@ == (match row.note {
        Some(note) => label_shown(row) + " · "@ + note@,
        None => label_shown(row),
    })
    &&& tab.shown@ == (if narrow {
        first_of(label_shown(row))
    } else {
        label_shown(row)
    })
    &&& tab.selected == (in_front(open, focused) == Some(row.module@))
    &&& tab.lit == (tab.selected || lists(open, row.module@))
    &&& tab.failed == (row.note matches Some(note) && note@ == "Failed"@)
    &&& match tab.badge {
        Some(badge) => row.badge > 0 && badge@ == crate::text::decimal(row.badge as nat),
        None => row.badge == 0,
    }
}

/// What the bell reads as.
pub open spec fn bell_name(unread: u64) -> Seq<char> {
    if unread == 0 {
        "Notifications"@
    } else {
        "Notifications, "@ + crate::text::decimal(unread as nat) + " unread"@
    }
}

/// The number on the bell: none for none, and no more than two digits.
pub open spec fn bell_count(unread: u64) -> Option<Seq<char>> {
    if unread == 0 {
        None
    } else if unread <= 99 {
        Some(crate::text::decimal(unread as nat))
    } else {
        Some("99+"@)
    }
}

/// What the node reads as: a switch under way before an answer that does not
/// come, and that before the block it is at.
pub open spec fn node_name(facts: Facts) -> Seq<char> {
    if facts.connecting {
        "Node: switching"@
    } else if facts.reconnecting {
        "Node: not answering"@
    } else {
        "Node: in sync, block "@ + crate::text::decimal(facts.height as nat)
    }
}

/// Whether `item` is the button with this id, this name and this message.
pub open spec fn is_item(
    item: Item,
    id: Seq<char>,
    name: Seq<char>,
    open: bool,
    message: Message,
) -> bool {
    &&& item.id@ == id
    &&& item.name@ == name
    &&& item.open == open
    &&& item.message == message
}

/// The name the key in use goes by, and what that abbreviates to.
pub open spec fn holder_name(facts: Facts) -> (Seq<char>, Seq<char>) {
    match facts.holder {
        Holder::Account { name, initials, .. } => (name@, initials@),
        _ => ("Signed in"@, facts.signed_in_initials@),
    }
}

/// Whether `who` is who is signed in: a way in without a key, a way to an
/// account with a key that has none, and otherwise the account's menu.
pub open spec fn names(who: Who, facts: Facts, narrow: bool) -> bool {
    if !facts.unlocked {
        &&& is_item(who.item, "sign-in"@, "Sign in"@, false, Message::SignIn)
        &&& who.shown@ == "Sign in"@
    } else if facts.holder is Nobody {
        &&& is_item(
            who.item,
            "rail-account"@,
            "Account: no account yet — create one"@,
            false,
            Message::ShowCreateAccount,
        )
        &&& who.shown@ == "Create account"@
    } else {
        &&& is_item(
            who.item,
            "rail-account"@,
            "Account: "@ + holder_name(facts).0,
            facts.overlay == Some(Overlay::Menu(Popover::Account)),
            Message::TogglePopover(Popover::Account),
        )
        &&& who.shown@ == (if narrow {
            holder_name(facts).1
        } else {
            holder_name(facts).0
        })
    }
}

/// A program's name on the bar.
pub fn tab_label(row: &RailRow) -> (shown: String)
    ensures
        shown@ == label_shown(*row),
{
    match &row.note {
        Some(_) => row.pretty.clone(),
        None => row.label.clone(),
    }
}

fn first(text: &str) -> (head: String)
    ensures
        head@ == first_of(text@),
{
    let chars = chars_of(text);
    let mut head = String::new();
    if chars.len() > 0 {
        head.push(chars[0]);
    }
    assert(head@ =~= first_of(text@));
    head
}

fn listed(modules: &Vec<String>, module: &str) -> (yes: bool)
    ensures
        yes == lists(modules@, module@),
{
    let mut at: usize = 0;
    while at < modules.len()
        invariant
            at <= modules@.len(),
            forall|i: int| 0 <= i < at ==> (#[trigger] modules@[i])@ != module@,
        decreases modules@.len() - at,
    {
        if same_text(modules[at].as_str(), module) {
            return true;
        }
        at += 1;
    }
    false
}

fn tab_of(row: &RailRow, open: &Vec<String>, focused: usize, narrow: bool) -> (tab: Tab)
    ensures
        is_tab(tab, *row, open@, focused as int, narrow),
{
    let label = tab_label(row);
    let selected = focused < open.len() && same_text(open[focused].as_str(), row.module.as_str());
    let name = match &row.note {
        Some(note) => joined3(label.as_str(), " · ", note.as_str()),
        None => label.clone(),
    };
    let failed = match &row.note {
        Some(note) => same_text(note.as_str(), "Failed"),
        None => false,
    };
    let badge = if row.badge > 0 {
        Some(decimal_of(row.badge))
    } else {
        None
    };
    Tab {
        id: joined("rail/", row.module.as_str()),
        module: row.module.clone(),
        name,
        shown: if narrow {
            first(label.as_str())
        } else {
            label
        },
        selected,
        lit: selected || listed(open, row.module.as_str()),
        failed,
        badge,
    }
}

fn tabs_of(rail: &Vec<RailRow>, open: &Vec<String>, focused: usize, narrow: bool) -> (tabs: Vec<
    Tab,
>)
    ensures
        tabs@.len() == tabbed(rail@).len(),
        forall|i: int|
            0 <= i < tabs@.len() ==> is_tab(
                #[trigger] tabs@[i],
                tabbed(rail@)[i],
                open@,
                focused as int,
                narrow,
            ),
{
    let mut tabs: Vec<Tab> = Vec::new();
    let mut nth: usize = 0;
    while nth < rail.len()
        invariant
            nth <= rail@.len(),
            tabs@.len() == tabbed(rail@.take(nth as int)).len(),
            forall|i: int|
                0 <= i < tabs@.len() ==> is_tab(
                    #[trigger] tabs@[i],
                    tabbed(rail@.take(nth as int))[i],
                    open@,
                    focused as int,
                    narrow,
                ),
        decreases rail@.len() - nth,
    {
        assert(rail@.take(nth + 1).drop_last() =~= rail@.take(nth as int));
        if !rail[nth].empty {
            tabs.push(tab_of(&rail[nth], open, focused, narrow));
        }
        nth += 1;
    }
    assert(rail@.take(nth as int) =~= rail@);
    tabs
}

/// What a press on the bar's empty middle does to the window.
#[derive(Clone, Copy, Debug, PartialEq, Eq, Structural)]
pub enum Handle {
    /// What the system does on a title bar's double click.
    DoubleClick,
    /// The window moves with the pointer.
    Move,
}

/// What the press that is the `clicks`th in a row does on the bar's empty
/// middle. It is the window's handle only where the bar is its title bar
/// (`titlebar`).
pub fn handle_pressed(titlebar: bool, clicks: u64) -> (done: Option<Handle>)
    ensures
        done == (if !titlebar {
            None
        } else if clicks == 2 {
            Some(Handle::DoubleClick)
        } else {
            Some(Handle::Move)
        }),
{
    if !titlebar {
        None
    } else if clicks == 2 {
        Some(Handle::DoubleClick)
    } else {
        Some(Handle::Move)
    }
}

impl Tab {
    /// What a click on the tab does: it opens the program, and with shift held
    /// it shows it in the focused window instead.
    pub fn clicked(&self, shift: bool) -> (click: TabClick)
        ensures
            if shift {
                click matches TabClick::Show { module } && module@ == self.module@
            } else {
                click matches TabClick::Open { module } && module@ == self.module@
            },
    {
        if shift {
            TabClick::Show { module: self.module.clone() }
        } else {
            TabClick::Open { module: self.module.clone() }
        }
    }
}

fn item_of(id: &str, name: String, open: bool, message: Message) -> (item: Item)
    ensures
        is_item(item, id@, name@, open, message),
{
    Item { id: id.to_owned(), name, open, message }
}

fn who_of(facts: &Facts, narrow: bool) -> (who: Who)
    ensures
        names(who, *facts, narrow),
{
    if !facts.unlocked {
        return Who {
            item: item_of("sign-in", "Sign in".to_owned(), false, Message::SignIn),
            shown: "Sign in".to_owned(),
        };
    }
    let (name, initials) = match &facts.holder {
        Holder::Nobody => {
            return Who {
                item: item_of(
                    "rail-account",
                    "Account: no account yet — create one".to_owned(),
                    false,
                    Message::ShowCreateAccount,
                ),
                shown: "Create account".to_owned(),
            };
        },
        Holder::Account { name, initials, .. } => (name.clone(), initials.clone()),
        Holder::Unknown => ("Signed in".to_owned(), facts.signed_in_initials.clone()),
    };
    let item = item_of(
        "rail-account",
        joined("Account: ", name.as_str()),
        facts.overlay == Some(Overlay::Menu(Popover::Account)),
        Message::TogglePopover(Popover::Account),
    );
    let shown = if narrow {
        initials
    } else {
        name
    };
    Who { item, shown }
}

/// The bar over `rail`, with `open` the modules open on the desk and `focused`
/// which of them is in front; `narrow` when its words are folded, and `mac`
/// when chords are written as on a Mac.
pub fn menubar(
    facts: &Facts,
    rail: &Vec<RailRow>,
    open: &Vec<String>,
    focused: usize,
    narrow: bool,
    mac: bool,
) -> (bar: Menubar)
    ensures
        is_item(
            bar.network,
            "network-switcher"@,
            "Network: "@ + facts.network@,
            facts.overlay == Some(Overlay::Network),
            Message::ToggleNetworkMenu,
        ),
        bar.tabs@.len() == tabbed(rail@).len(),
        forall|i: int|
            0 <= i < bar.tabs@.len() ==> is_tab(
                #[trigger] bar.tabs@[i],
                tabbed(rail@)[i],
                open@,
                focused as int,
                narrow,
            ),
        bar.none_listed == (rail@.len() == 0),
        is_item(bar.search, "rail-search"@, "Search"@, false, Message::OpenSpotlight),
        bar.search_word == !narrow,
        bar.chord@ == crate::shell::chord_text("K"@, mac),
        is_item(
            bar.bell,
            "rail-notifications"@,
            bell_name(facts.unread),
            facts.overlay == Some(Overlay::Menu(Popover::Notifications)),
            Message::TogglePopover(Popover::Notifications),
        ),
        match (bar.count, bell_count(facts.unread)) {
            (Some(count), Some(text)) => count@ == text,
            (None, None) => true,
            _ => false,
        },
        is_item(
            bar.node,
            "rail-connection"@,
            node_name(*facts),
            facts.overlay == Some(Overlay::Menu(Popover::Node)),
            Message::TogglePopover(Popover::Node),
        ),
        bar.breathing == (facts.connecting || !facts.reconnecting),
        names(bar.who, *facts, narrow),
        is_item(
            bar.settings,
            "settings"@,
            "Ducktape settings"@,
            false,
            Message::OpenSettings,
        ),
{
    let bell_words = if facts.unread == 0 {
        "Notifications".to_owned()
    } else {
        joined3("Notifications, ", decimal_of(facts.unread).as_str(), " unread")
    };
    let count = if facts.unread == 0 {
        None
    } else if facts.unread <= 99 {
        Some(decimal_of(facts.unread))
    } else {
        Some("99+".to_owned())
    };
    let node_words = if facts.connecting {
        "Node: switching".to_owned()
    } else if facts.reconnecting {
        "Node: not answering".to_owned()
    } else {
        joined("Node: in sync, block ", decimal_of(facts.height).as_str())
    };
    Menubar {
        network: item_of(
            "network-switcher",
            joined("Network: ", facts.network.as_str()),
            facts.overlay == Some(Overlay::Network),
            Message::ToggleNetworkMenu,
        ),
        tabs: tabs_of(rail, open, focused, narrow),
        none_listed: rail.len() == 0,
        search: item_of("rail-search", "Search".to_owned(), false, Message::OpenSpotlight),
        search_word: !narrow,
        chord: chord_label("K", mac),
        bell: item_of(
            "rail-notifications",
            bell_words,
            facts.overlay == Some(Overlay::Menu(Popover::Notifications)),
            Message::TogglePopover(Popover::Notifications),
        ),
        count,
        node: item_of(
            "rail-connection",
            node_words,
            facts.overlay == Some(Overlay::Menu(Popover::Node)),
            Message::TogglePopover(Popover::Node),
        ),
        breathing: facts.connecting || !facts.reconnecting,
        who: who_of(facts, narrow),
        settings: item_of(
            "settings",
            "Ducktape settings".to_owned(),
            false,
            Message::OpenSettings,
        ),
    }
}

// ---------- what these come to ----------
proof fn tabbed_is_a_filter(rail: Seq<RailRow>)
    ensures
        tabbed(rail) == rail.filter(|row: RailRow| !row.empty),
    decreases rail.len(),
{
    reveal(Seq::filter);
    if rail.len() > 0 {
        tabbed_is_a_filter(rail.drop_last());
    }
}

/// Every program with anything in it has a tab, in the order they are listed,
/// and no other has.
pub proof fn every_program_with_anything_in_it_has_a_tab(
    facts: &Facts,
    rail: &Vec<RailRow>,
    open: &Vec<String>,
    focused: usize,
    narrow: bool,
    mac: bool,
    bar: Menubar,
    nth: int,
)
    requires
        call_ensures(menubar, (facts, rail, open, focused, narrow, mac), bar),
        0 <= nth < bar.tabs@.len(),
    ensures
        ({
            let rows = rail@.filter(|row: RailRow| !row.empty);
            &&& bar.tabs@.len() == rows.len()
            &&& bar.tabs@[nth].module@ == rows[nth].module@
            &&& !rows[nth].empty
        }),
        bar.none_listed <==> rail@.len() == 0,
{
    let keeps = |row: RailRow| !row.empty;
    tabbed_is_a_filter(rail@);
    rail@.lemma_filter_pred(keeps, nth);
    assert(is_tab(bar.tabs@[nth], tabbed(rail@)[nth], open@, focused as int, narrow));
}

/// What a tab says of its program: its label, readable where something is the
/// matter, and then what; only its first character where the bar is folded. It
/// is selected where its program is in front, lit where that is open at all,
/// failed where that is what is the matter, and counts what there is to count.
pub proof fn a_tab_says_what_its_program_is(
    tab: Tab,
    row: RailRow,
    open: Seq<String>,
    focused: int,
    narrow: bool,
)
    requires
        is_tab(tab, row, open, focused, narrow),
    ensures
        tab.module@ == row.module@,
        tab.id@ == "rail/"@ + row.module@,
        row.note is None ==> tab.name@ == row.label@,
        row.note matches Some(note) ==> tab.name@ == row.pretty@ + " · "@ + note@,
        !narrow && row.note is None ==> tab.shown@ == row.label@,
        !narrow && row.note is Some ==> tab.shown@ == row.pretty@,
        narrow && row.note is None && row.label@.len() > 0 ==> tab.shown@ == seq![row.label@[0]],
        narrow && row.note is Some && row.pretty@.len() > 0 ==> tab.shown@ == seq![row.pretty@[0]],
        tab.selected <==> 0 <= focused < open.len() && open[focused]@ == row.module@,
        tab.lit <==> exists|i: int| 0 <= i < open.len() && (#[trigger] open[i])@ == row.module@,
        tab.failed <==> row.note is Some && row.note->0@ == "Failed"@,
        tab.badge is Some <==> row.badge > 0,
        tab.badge matches Some(badge) ==> badge@ == crate::text::decimal(row.badge as nat),
{
    assert(row.label@.len() > 0 ==> row.label@.take(1) =~= seq![row.label@[0]]);
    assert(row.pretty@.len() > 0 ==> row.pretty@.take(1) =~= seq![row.pretty@[0]]);
    if tab.selected {
        assert(open[focused]@ == row.module@);
    }
}

/// What a row's name on the bar is of itself, before any tab is drawn of it.
pub proof fn a_label_is_made_readable_while_something_is_the_matter(row: &RailRow, shown: String)
    requires
        call_ensures(tab_label, (row,), shown),
    ensures
        row.note is Some ==> shown@ == row.pretty@,
        row.note is None ==> shown@ == row.label@,
{
}

/// The bell counts what is unread, up to two digits, and shows no number for
/// none; and it reads as how many there are, however many.
pub proof fn the_bell_counts_to_two_digits(
    facts: &Facts,
    rail: &Vec<RailRow>,
    open: &Vec<String>,
    focused: usize,
    narrow: bool,
    mac: bool,
    bar: Menubar,
)
    requires
        call_ensures(menubar, (facts, rail, open, focused, narrow, mac), bar),
    ensures
        bar.count is None <==> facts.unread == 0,
        0 < facts.unread < 100 ==> bar.count->0@ == crate::text::decimal(facts.unread as nat),
        facts.unread >= 100 ==> bar.count->0@ == seq!['9', '9', '+'],
        facts.unread == 0 ==> bar.bell.name@ == "Notifications"@,
        facts.unread > 0 ==> bar.bell.name@ == "Notifications, "@ + crate::text::decimal(
            facts.unread as nat,
        ) + " unread"@,
        bar.bell.id@ == "rail-notifications"@,
        bar.bell.message == Message::TogglePopover(Popover::Notifications),
        bar.bell.open <==> facts.overlay == Some(Overlay::Menu(Popover::Notifications)),
{
    reveal_strlit("99+");
    assert("99+"@ =~= seq!['9', '9', '+']);
}

/// What the node's place on the bar says: a switch under way before anything
/// else, then that the node does not answer, then the block it is at. It is
/// drawn breathing unless the node is only not answering.
pub proof fn the_node_says_what_it_is_at(
    facts: &Facts,
    rail: &Vec<RailRow>,
    open: &Vec<String>,
    focused: usize,
    narrow: bool,
    mac: bool,
    bar: Menubar,
)
    requires
        call_ensures(menubar, (facts, rail, open, focused, narrow, mac), bar),
    ensures
        facts.connecting ==> bar.node.name@ == "Node: switching"@,
        !facts.connecting && facts.reconnecting ==> bar.node.name@ == "Node: not answering"@,
        !facts.connecting && !facts.reconnecting ==> bar.node.name@ == "Node: in sync, block "@
            + crate::text::decimal(facts.height as nat),
        bar.breathing <==> !(facts.reconnecting && !facts.connecting),
        bar.node.id@ == "rail-connection"@,
        bar.node.message == Message::TogglePopover(Popover::Node),
        bar.node.open <==> facts.overlay == Some(Overlay::Menu(Popover::Node)),
{
}

/// Who is signed in: without a key, a way in; with a key known to have no
/// account, a way to one; and otherwise the account's menu under the name the
/// account has, or `Signed in` while that is not known, abbreviated where the
/// bar is folded.
pub proof fn the_bar_says_who_is_signed_in(
    facts: &Facts,
    rail: &Vec<RailRow>,
    open: &Vec<String>,
    focused: usize,
    narrow: bool,
    mac: bool,
    bar: Menubar,
)
    requires
        call_ensures(menubar, (facts, rail, open, focused, narrow, mac), bar),
    ensures
        bar.who.item.message is SignIn <==> !facts.unlocked,
        bar.who.item.message is ShowCreateAccount <==> facts.unlocked && facts.holder is Nobody,
        bar.who.item.message == Message::TogglePopover(Popover::Account) <==> facts.unlocked
            && !(facts.holder is Nobody),
        !facts.unlocked ==> bar.who.item.id@ == "sign-in"@ && bar.who.shown@ == "Sign in"@,
        facts.unlocked ==> bar.who.item.id@ == "rail-account"@,
        bar.who.item.open ==> facts.unlocked && facts.overlay == Some(
            Overlay::Menu(Popover::Account),
        ),
        facts.unlocked && facts.holder is Nobody ==> bar.who.shown@ == "Create account"@
            && bar.who.item.name@ == "Account: no account yet — create one"@ && !bar.who.item.open,
        !facts.unlocked ==> bar.who.item.name@ == "Sign in"@ && !bar.who.item.open,
        facts.unlocked && facts.holder is Account ==> {
            &&& bar.who.item.name@ == "Account: "@ + facts.holder->Account_name@
            &&& !narrow ==> bar.who.shown@ == facts.holder->Account_name@
            &&& narrow ==> bar.who.shown@ == facts.holder->Account_initials@
            &&& bar.who.item.open <==> facts.overlay == Some(Overlay::Menu(Popover::Account))
        },
        facts.unlocked && facts.holder is Unknown ==> {
            &&& bar.who.item.name@ == "Account: "@ + "Signed in"@
            &&& !narrow ==> bar.who.shown@ == "Signed in"@
            &&& narrow ==> bar.who.shown@ == facts.signed_in_initials@
        },
{
}

/// The rest of the bar: the network under its name, Search with its chord and
/// spelled out while there is room, and Settings; each says its own.
pub proof fn the_rest_of_the_bar_says_its_own(
    facts: &Facts,
    rail: &Vec<RailRow>,
    open: &Vec<String>,
    focused: usize,
    narrow: bool,
    mac: bool,
    bar: Menubar,
)
    requires
        call_ensures(menubar, (facts, rail, open, focused, narrow, mac), bar),
    ensures
        bar.network.id@ == "network-switcher"@ && bar.network.message is ToggleNetworkMenu,
        bar.network.name@ == "Network: "@ + facts.network@,
        bar.network.open <==> facts.overlay == Some(Overlay::Network),
        bar.search.id@ == "rail-search"@ && bar.search.name@ == "Search"@ && bar.search.message
            is OpenSpotlight && !bar.search.open,
        bar.search_word <==> !narrow,
        mac ==> bar.chord@ == seq!['⌘', 'K'],
        !mac ==> bar.chord@ == seq!['C', 't', 'r', 'l', ' ', 'K'],
        bar.settings.id@ == "settings"@ && bar.settings.message is OpenSettings
            && !bar.settings.open && bar.settings.name@ == "Ducktape settings"@,
{
    reveal_strlit("⌘");
    reveal_strlit("Ctrl ");
    reveal_strlit("K");
    assert("⌘"@ + "K"@ =~= seq!['⌘', 'K']);
    assert("Ctrl "@ + "K"@ =~= seq!['C', 't', 'r', 'l', ' ', 'K']);
}

/// A click on a tab opens its program, and with shift shows it where one is;
/// a press on the bar's empty middle moves the window, and the second in a row
/// is the system's double click, where the bar is the title bar and only there.
pub proof fn a_click_on_the_bar_does_what_it_looks_like(
    tab: &Tab,
    shift: bool,
    click: TabClick,
    titlebar: bool,
    clicks: u64,
    done: Option<Handle>,
)
    requires
        call_ensures(Tab::clicked, (tab, shift), click),
        call_ensures(handle_pressed, (titlebar, clicks), done),
    ensures
        click is Show <==> shift,
        click matches TabClick::Show { module } ==> module@ == tab.module@,
        click matches TabClick::Open { module } ==> module@ == tab.module@,
        done is Some <==> titlebar,
        titlebar ==> (done == Some(Handle::DoubleClick) <==> clicks == 2),
{
}

} // verus!
