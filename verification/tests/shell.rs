//! The desk, its bar, its windows and its notifications.

use ducktape::shell::activation;
use ducktape::shell::ax_windows;
use ducktape::shell::chord_label;
use ducktape::shell::close_by_key;
use ducktape::shell::command_w_pane;
use ducktape::shell::crossing_window;
use ducktape::shell::desk::bar_words;
use ducktape::shell::desk::console;
use ducktape::shell::desk::front;
use ducktape::shell::desk::hanging;
use ducktape::shell::desk::measures_again;
use ducktape::shell::desk::same_words;
use ducktape::shell::desk::Layout;
use ducktape::shell::desk_keys;
use ducktape::shell::execute;
use ducktape::shell::leave;
use ducktape::shell::menubar::handle_pressed;
use ducktape::shell::menubar::menubar;
use ducktape::shell::menubar::tab_label;
use ducktape::shell::menubar::Facts;
use ducktape::shell::menubar::Handle;
use ducktape::shell::menubar::Holder;
use ducktape::shell::menubar::Message;
use ducktape::shell::menubar::Overlay;
use ducktape::shell::menubar::Popover;
use ducktape::shell::menubar::RailRow;
use ducktape::shell::menubar::TabClick;
use ducktape::shell::notifications::ago;
use ducktape::shell::notifications::heading_text;
use ducktape::shell::notifications::local_midnight;
use ducktape::shell::notifications::notifications;
use ducktape::shell::notifications::Entry;
use ducktape::shell::notifications::Message as Pressed;
use ducktape::shell::notifications::Section;
use ducktape::shell::observe_window;
use ducktape::shell::open_link;
use ducktape::shell::open_url_now;
use ducktape::shell::remembered;
use ducktape::shell::screen;
use ducktape::shell::subscriptions;
use ducktape::shell::swap_console;
use ducktape::shell::swapped;
use ducktape::shell::sync_appearance;
use ducktape::shell::waits;
use ducktape::shell::windows::open_window;
use ducktape::shell::windows::opened;
use ducktape::shell::windows::Extent;
use ducktape::shell::windows::Place;
use ducktape::shell::windows::Then;
use ducktape::shell::Act;
use ducktape::shell::Activation;
use ducktape::shell::Appearance;
use ducktape::shell::ByKey;
use ducktape::shell::Command;
use ducktape::shell::Heard;
use ducktape::shell::Leave;
use ducktape::shell::Leaving;
use ducktape::shell::Next;
use ducktape::shell::Screen;
use ducktape::shell::Stage;
use ducktape::shell::To;
use ducktape::shell::WindowBounds;
use ducktape::shell::WindowEvent;
use ducktape::shell::WindowKind;
use ducktape::shell::FRAME_SETTLES;
use ducktape::shell::LEAVE_FULL_SIZE;

#[test]
fn times_read_short() {
    for offset in [0, 3_600, -5 * 3_600, 20_700] {
        let now = local_midnight(1_790_121_600, offset, offset) + 12 * 3_600;
        assert_eq!(ago(now - 5, now, offset, offset), "now");
        assert_eq!(ago(now - 14 * 60, now, offset, offset), "14m");
        assert_eq!(ago(now - 2 * 3_600, now, offset, offset), "2h");
        assert_eq!(ago(now - 20 * 3_600, now, offset, offset), "Yesterday");
        assert_eq!(ago(now - 4 * 86_400, now, offset, offset), "4d");
    }
}

#[test]
fn times_read_short_at_their_edges() {
    let midnight = local_midnight(1_790_121_600, 0, 0);
    assert_eq!(midnight, 1_790_121_600);
    let now = midnight + 7_200;
    assert_eq!(ago(now + 50, now, 0, 0), "now", "a time to come is now");
    assert_eq!(ago(now - 59, now, 0, 0), "now");
    assert_eq!(ago(now - 60, now, 0, 0), "1m");
    assert_eq!(ago(now - 3_599, now, 0, 0), "59m");
    assert_eq!(ago(now - 3_600, now, 0, 0), "1h");
    assert_eq!(ago(midnight, now, 0, 0), "2h");
    assert_eq!(ago(midnight - 1, now, 0, 0), "Yesterday");
    assert_eq!(ago(midnight - 86_400, now, 0, 0), "Yesterday");
    assert_eq!(ago(midnight - 86_401, now, 0, 0), "1d");
}

#[test]
fn a_day_starts_at_its_midnight_before_the_epoch_too() {
    assert_eq!(local_midnight(-1, 0, 0), -86_400);
    assert_eq!(local_midnight(-1, 1, 1), -1);
    assert_eq!(local_midnight(86_399, -3_600, -3_600), 3_600);
}

#[test]
fn a_day_on_which_clocks_change_starts_at_its_own_midnight() {
    // an hour ahead of UTC until 01:00 UTC, two from then on
    let clock = |wall: i64| if wall < 20 * 86_400 + 3_600 { 3_600 } else { 7_200 };
    let start = 20 * 86_400 - 3_600;
    for wall in [start, start + 60, 20 * 86_400 + 3_600, 20 * 86_400 + 43_200] {
        let guess = local_midnight(wall, clock(wall), clock(wall));
        let found = local_midnight(wall, clock(wall), clock(guess));
        assert_eq!(found, start);
        assert_eq!((found + clock(found)).rem_euclid(86_400), 0);
    }
    let now = 20 * 86_400 + 43_200;
    assert_eq!(ago(start, now, 7_200, 3_600), "13h");
    assert_eq!(ago(start - 1, now, 7_200, 3_600), "Yesterday");
    let entries = vec![entry(2, start, "a", ""), entry(1, start - 1, "b", "")];
    let panel = notifications(&entries, 0, now, 7_200, 3_600);
    assert_eq!(panel.rows[0].heading, Some(Section::Today));
    assert_eq!(panel.rows[1].heading, Some(Section::Earlier));
}

fn entry(id: u64, at: i64, title: &str, body: &str) -> Entry {
    Entry {
        id,
        at,
        title: title.to_owned(),
        body: body.to_owned(),
        module: "chat".to_owned(),
        tag: String::new(),
        read: false,
        count: 1,
    }
}

#[test]
fn notifications_stand_under_today_and_earlier() {
    let now = 10 * 86_400 + 7_200;
    let entries = vec![
        entry(4, now - 10, "ada", "hi\nthere"),
        Entry { read: true, count: 3, ..entry(3, now - 60, "\u{df}en", "") },
        Entry { tag: "room".to_owned(), ..entry(2, now - 86_400, "", "x") },
        entry(1, now - 3 * 86_400, "bob", "y"),
    ];
    let panel = notifications(&entries, 3, now, 0, 0);
    assert_eq!(panel.unread, "3 unread");
    assert!(panel.caught_up.is_none());
    let mark_all = panel.mark_all.expect("something unread");
    assert_eq!((mark_all.id.as_str(), mark_all.text.as_str()), ("notif-mark-all", "Mark all read"));
    assert_eq!(mark_all.message, Pressed::MarkAllRead);
    let clear = panel.clear_read.expect("something read");
    assert_eq!((clear.id.as_str(), clear.text.as_str()), ("notif-clear-read", "Clear read"));
    assert_eq!(clear.message, Pressed::ClearRead);
    assert_eq!(panel.settings.id, "notif-settings");
    assert_eq!(panel.settings.text, "Notification settings");
    assert_eq!(panel.settings.message, Pressed::Settings);
    let headings: Vec<_> = panel.rows.iter().map(|row| row.heading).collect();
    assert_eq!(
        headings,
        vec![Some(Section::Today), None, Some(Section::Earlier), None]
    );
    let first = &panel.rows[0];
    assert_eq!((first.id.as_str(), first.message), ("notif/4", Pressed::Open(4)));
    assert_eq!(heading_text(Section::Today), "Today");
    assert_eq!(heading_text(Section::Earlier), "Earlier");
    assert_eq!(first.said, "Unread. ada: hi\nthere");
    assert_eq!(first.initial, "A");
    assert_eq!(first.body.as_deref(), Some("hi there"));
    assert_eq!(first.source, "chat");
    assert_eq!(first.ago, "now");
    assert_eq!(first.count, None);
    let second = &panel.rows[1];
    assert_eq!(second.initial, "SS", "a sharp s has two capitals");
    assert_eq!(second.said, "\u{df}en: ");
    assert_eq!(second.body, None);
    assert_eq!(second.count.as_deref(), Some("3"));
    assert!(!second.unread);
    assert_eq!(panel.rows[2].initial, "");
    assert_eq!(panel.rows[2].source, "chat \u{b7} room");
    assert_eq!(panel.rows[3].ago, "3d");
}

#[test]
fn no_notifications_is_all_caught_up() {
    let panel = notifications(&vec![], 0, 0, 0, 0);
    assert!(panel.mark_all.is_none() && panel.clear_read.is_none() && panel.rows.is_empty());
    let words = panel.caught_up.expect("nothing to show");
    assert_eq!(words.title, "You\u{2019}re all caught up");
    assert_eq!(words.hint, "Mentions and messages land here.");
}

#[test]
fn a_window_leaving_full_size_is_taken_at_the_frame_it_settles_on() {
    let frame = |x: i32| (x, 0, 800, 600);
    let mut leaving = Leaving::begin(1_000);
    assert_eq!(leaving.wait(1_000), LEAVE_FULL_SIZE);
    // the state first, still at full size, then two frames
    for reported in [None, Some(frame(1)), Some(frame(2))] {
        leaving = match leaving.left_full_size(Heard::Frame(reported)) {
            Next::Wait(leaving) => leaving,
            Next::Done(_) => panic!("still waiting"),
        };
    }
    assert_eq!(leaving.wait(1_010), FRAME_SETTLES);
    assert!(matches!(
        leaving.left_full_size(Heard::Nothing),
        Next::Done(Some(settled)) if settled == frame(2)
    ));

    // a window that never says: given up on, not waited for forever
    let silent: Leaving<i32> = Leaving::begin(0);
    assert_eq!(silent.wait(LEAVE_FULL_SIZE), 0);
    assert!(matches!(silent.left_full_size(Heard::Nothing), Next::Done(None)));
}

#[test]
fn a_frame_said_before_full_size_is_kept() {
    let leaving = Leaving { give_up: 100, last: Some(7) };
    assert_eq!(leaving.wait(50), 50, "no longer than is left");
    assert_eq!(leaving.wait(200), 0);
    assert!(matches!(
        leaving.left_full_size(Heard::Frame(None)),
        Next::Wait(Leaving { give_up: 100, last: Some(7) })
    ));
}

#[test]
fn a_desk_crosses_to_the_launcher_and_back_as_it_stood() {
    for mac in [true, false] {
        for (fullscreen, maximized) in [(false, false), (false, true), (true, false), (true, true)] {
            let (left, out) = leave(fullscreen, maximized, 'w', mac);
            assert_eq!(waits(&left, mac), out != Leave::Stay);
            let kept = swapped(left, Some('s'), None, mac);
            let desk = remembered(true, Some(WindowBounds::Windowed('o')), Some(kept));
            let (to, back) = swap_console(Some(1), false, desk, mac).unwrap();
            assert_eq!(back, out);
            let expected = if out == Leave::Stay { 'w' } else { 's' };
            assert!(matches!(to, To::Back(frame) if frame == expected));
        }
    }
    let full = Some(WindowBounds::Fullscreen('w'));
    let (to, back) = swap_console(Some(1), true, full, false).unwrap();
    assert!(matches!(to, To::Launcher));
    assert_eq!(back, Leave::Stay);
    let (to, back) = swap_console::<char>(Some(1), false, None, false).unwrap();
    assert!(matches!(to, To::Centred));
    assert_eq!(back, Leave::Stay);
}

#[test]
fn the_desk_remembered_is_what_gave_way_to_the_launcher() {
    let desk = Some(WindowBounds::Windowed('d'));
    let left = Some(WindowBounds::Maximized('l'));
    assert!(matches!(remembered(true, desk, left), Some(WindowBounds::Maximized('l'))));
    assert!(matches!(remembered(false, desk, left), Some(WindowBounds::Windowed('d'))));
    assert!(remembered(true, desk, None).is_none());
}

#[test]
fn without_a_console_window_nothing_crosses() {
    assert_eq!(crossing_window(Some(2), &vec![1, 2], &vec![2]), Some(2));
    assert_eq!(crossing_window(Some(2), &vec![1], &vec![2]), None);
    assert_eq!(crossing_window(Some(2), &vec![1, 2], &vec![1]), None);
    assert_eq!(crossing_window(None, &vec![1], &vec![1]), None);
    assert!(swap_console(None, true, Some(WindowBounds::Windowed('d')), false).is_none());
}

#[test]
fn a_window_that_never_says_is_taken_as_it_is() {
    let kept = swapped(WindowBounds::Maximized('w'), None, Some('n'), false);
    assert!(matches!(kept, WindowBounds::Maximized('n')));
    let kept = swapped(WindowBounds::Fullscreen('w'), None, None, true);
    assert!(matches!(kept, WindowBounds::Fullscreen('w')));
    let kept = swapped(WindowBounds::Maximized('w'), Some('s'), Some('n'), true);
    assert!(matches!(kept, WindowBounds::Maximized('w')));
}

#[test]
fn chords_and_commands_are_written_for_the_platform() {
    assert_eq!(chord_label("K", true), "\u{2318}K");
    assert_eq!(chord_label("K", false), "Ctrl K");
    let link: Command<char> = open_link("l".to_owned());
    assert!(matches!(execute(link, &vec![]), Act::Link(link) if link == "l"));
    let page: Command<char> = open_url_now("u".to_owned());
    assert!(matches!(execute(page, &vec![]), Act::Browse(url) if url == "u"));
}

#[test]
fn commands_reach_the_windows_there_are() {
    let windows = vec![1, 4];
    let act = |command: Command<char>| execute(command, &windows);
    let open = Command::Open { key: 9, kind: WindowKind::View, at: Some('b') };
    assert!(matches!(
        act(open),
        Act::Open { key: 9, kind: WindowKind::View, at: Some('b') }
    ));
    assert!(matches!(act(Command::Raise(4)), Act::Activate(4)));
    assert!(matches!(act(Command::Raise(5)), Act::Nothing));
    assert!(matches!(act(Command::Close(1)), Act::Remove(1)));
    assert!(matches!(act(Command::Close(2)), Act::Nothing));
    assert!(matches!(act(Command::SyncAppearance), Act::Theme));
    assert!(matches!(act(Command::SwapConsole), Act::Swap));
    assert!(matches!(act(Command::Quit), Act::Quit { release } if release == windows));
    assert_eq!(sync_appearance(Appearance::Light), Some(false));
    assert_eq!(sync_appearance(Appearance::Dark), Some(true));
    assert_eq!(sync_appearance(Appearance::System), None);
}

#[test]
fn what_befalls_a_window_reaches_its_views_and_the_model() {
    let asked = observe_window(WindowEvent::CloseRequested, &vec![3, 1, 2], &vec![1, 3]);
    assert_eq!(asked.told, vec![3, 1]);
    assert!(asked.closes);
    let gone = observe_window(WindowEvent::Closed, &vec![2], &vec![]);
    assert!(gone.told.is_empty() && !gone.closes);
    assert_eq!(activation(7, true), Activation::Focused(7));
    assert_eq!(activation(7, false), Activation::Unfocused(7));
}

#[test]
fn the_bars_middle_is_a_title_bars_handle() {
    assert_eq!(handle_pressed(true, 1), Some(Handle::Move));
    assert_eq!(handle_pressed(true, 2), Some(Handle::DoubleClick));
    assert_eq!(handle_pressed(true, 3), Some(Handle::Move));
    assert_eq!(handle_pressed(false, 2), None);
}

#[test]
fn windows_are_named_in_order() {
    assert_eq!(ax_windows(0), Vec::<String>::new());
    assert_eq!(ax_windows(3), vec!["console", "console2", "console3"]);
}

#[test]
fn streams_run_exactly_while_they_are_wanted() {
    let (kept, started) = subscriptions(&vec![1, 2], &vec![2, 3, 3, 2]);
    assert_eq!(kept, vec![false, true]);
    assert_eq!(started, vec![false, true, false, false]);
}

#[test]
fn the_desks_keys_reach_only_a_bare_console_on_the_desk() {
    assert!(desk_keys(WindowKind::Console, false, None));
    assert!(!desk_keys(WindowKind::View, false, None));
    assert!(!desk_keys(WindowKind::Console, true, None));
    assert!(!desk_keys(WindowKind::Console, false, Some(Overlay::Settings)));
    assert_eq!(command_w_pane(true, 2, 1), Some(1));
    assert_eq!(command_w_pane(true, 0, 0), None);
    assert_eq!(command_w_pane(false, 2, 1), None);
    assert_eq!(close_by_key(WindowKind::Console, false), ByKey::Minimize);
    assert_eq!(close_by_key(WindowKind::Console, true), ByKey::Close);
    assert_eq!(close_by_key(WindowKind::View, false), ByKey::Close);
}

#[test]
fn a_console_draws_the_step_it_is_at() {
    assert_eq!(screen(WindowKind::Console, Stage::Unlock), Screen::Step(Stage::Unlock));
    assert_eq!(screen(WindowKind::Console, Stage::Desk), Screen::Console);
    assert_eq!(screen(WindowKind::View, Stage::Connect), Screen::Console);
}

fn row(module: &str, label: &str, note: Option<&str>, empty: bool, badge: u64) -> RailRow {
    RailRow {
        module: module.to_owned(),
        label: label.to_owned(),
        pretty: format!("Pretty {label}"),
        note: note.map(str::to_owned),
        empty,
        badge,
    }
}

fn facts() -> Facts {
    Facts {
        network: "testkit".to_owned(),
        overlay: None,
        unread: 0,
        connecting: false,
        reconnecting: false,
        height: 41,
        unlocked: true,
        holder: Holder::Unknown,
        signed_in_initials: "SI".to_owned(),
    }
}

#[test]
fn the_bar_holds_a_tab_for_every_program_with_something_in_it() {
    let rail = vec![
        row("chat", "Chat", None, false, 0),
        row("void", "Void", None, true, 9),
        row("kv_store", "kv_store", Some("Failed"), false, 12),
    ];
    let open = vec!["kv_store".to_owned(), "chat".to_owned()];
    let bar = menubar(&facts(), &rail, &open, 1, false, false);
    assert_eq!(bar.tabs.len(), 2);
    let chat = &bar.tabs[0];
    assert_eq!((chat.id.as_str(), chat.name.as_str()), ("rail/chat", "Chat"));
    assert!(chat.selected && chat.lit && !chat.failed);
    assert_eq!(chat.badge, None);
    let store = &bar.tabs[1];
    assert_eq!(store.name, "Pretty kv_store \u{b7} Failed");
    assert_eq!(store.shown, "Pretty kv_store");
    assert!(!store.selected && store.lit && store.failed);
    assert_eq!(store.badge.as_deref(), Some("12"));
    assert!(!bar.none_listed && bar.search_word);
    assert_eq!(bar.chord, "Ctrl K");
    assert_eq!(bar.network.name, "Network: testkit");
    assert_eq!(bar.bell.name, "Notifications");
    assert_eq!(bar.count, None);
    assert_eq!(bar.node.name, "Node: in sync, block 41");
    assert!(bar.breathing);
    assert_eq!((bar.who.item.name.as_str(), bar.who.shown.as_str()), ("Account: Signed in", "Signed in"));
    assert_eq!(bar.who.item.message, Message::TogglePopover(Popover::Account));
    assert_eq!((bar.search.id.as_str(), bar.search.name.as_str()), ("rail-search", "Search"));
    assert_eq!(bar.search.message, Message::OpenSpotlight);
    assert_eq!((bar.settings.id.as_str(), bar.settings.name.as_str()), ("settings", "Ducktape settings"));
    assert_eq!(bar.settings.message, Message::OpenSettings);
    assert_eq!((bar.network.id.as_str(), bar.network.message), ("network-switcher", Message::ToggleNetworkMenu));
    assert_eq!(bar.bell.id, "rail-notifications");
    assert_eq!(bar.bell.message, Message::TogglePopover(Popover::Notifications));
    assert_eq!(bar.node.id, "rail-connection");
    assert_eq!(bar.node.message, Message::TogglePopover(Popover::Node));
    // a click opens the program; with shift it is shown in the focused window
    assert!(matches!(chat.clicked(false), TabClick::Open { module } if module == "chat"));
    assert!(matches!(store.clicked(true), TabClick::Show { module } if module == "kv_store"));
}

#[test]
fn a_narrow_bar_folds_its_words() {
    let rail = vec![row("chat", "Chat", None, false, 0), row("e", "", None, false, 0)];
    let holder = Holder::Account {
        number: 12,
        name: "Ada L".to_owned(),
        initials: "AL".to_owned(),
    };
    let facts = Facts {
        overlay: Some(Overlay::Menu(Popover::Account)),
        unread: 100,
        connecting: true,
        reconnecting: true,
        holder,
        ..facts()
    };
    let bar = menubar(&facts, &rail, &vec![], 0, true, true);
    assert_eq!(bar.tabs[0].shown, "C");
    assert_eq!(bar.tabs[1].shown, "");
    assert!(!bar.tabs[0].selected && !bar.tabs[0].lit);
    assert!(!bar.search_word);
    assert_eq!(bar.bell.name, "Notifications, 100 unread");
    assert_eq!(bar.count.as_deref(), Some("99+"));
    assert_eq!(bar.node.name, "Node: switching");
    assert!(bar.breathing);
    assert_eq!(bar.who.item.name, "Account: Ada L");
    assert!(bar.who.item.open);
    assert_eq!(bar.who.shown, "AL");
}

#[test]
fn who_is_signed_in_reads_by_what_is_known() {
    let locked = Facts { unlocked: false, reconnecting: true, unread: 99, ..facts() };
    let bar = menubar(&locked, &vec![], &vec![], 0, false, false);
    assert_eq!((bar.who.item.id.as_str(), bar.who.item.name.as_str()), ("sign-in", "Sign in"));
    assert_eq!((bar.who.item.message, bar.who.shown.as_str()), (Message::SignIn, "Sign in"));
    assert!(bar.none_listed && !bar.breathing);
    assert_eq!(bar.node.name, "Node: not answering");
    assert_eq!(bar.count.as_deref(), Some("99"));
    let nobody = Facts { holder: Holder::Nobody, ..facts() };
    let bar = menubar(&nobody, &vec![], &vec![], 0, false, false);
    assert_eq!(bar.who.item.name, "Account: no account yet \u{2014} create one");
    assert_eq!(bar.who.item.id, "rail-account");
    assert_eq!((bar.who.item.message, bar.who.shown.as_str()), (Message::ShowCreateAccount, "Create account"));
    assert_eq!(tab_label(&row("m", "l", Some("Loading"), false, 0)), "Pretty l");
    assert_eq!(tab_label(&row("m", "l", None, false, 0)), "l");
}

#[test]
fn an_untouched_console_opens_a_program() {
    let layout = |initialized| Layout {
        initialized,
        measured: true,
        panes: vec!["chat".to_owned()],
        focused: 0,
    };
    let rail = vec![
        row("void", "Void", None, true, 0),
        row("chat", "Chat", Some("Loading"), false, 0),
    ];
    let spotlight = Some(Overlay::Spotlight);
    let drawn = console(WindowKind::Console, &layout(false), &None, &rail, spotlight);
    assert!(drawn.animate && drawn.tell && drawn.bar && drawn.keeps_search);
    assert_eq!(drawn.seed.as_deref(), Some("chat"));
    assert_eq!(drawn.overlay, spotlight);
    let active = Some("kv".to_owned());
    let drawn = console(WindowKind::Console, &layout(false), &active, &rail, None);
    assert_eq!(drawn.seed.as_deref(), Some("kv"));
    let drawn = console(WindowKind::Console, &layout(true), &active, &rail, None);
    assert!(drawn.seed.is_none() && !drawn.tell);
    let drawn = console(WindowKind::View, &layout(false), &active, &vec![], spotlight);
    assert!(drawn.seed.is_none() && !drawn.bar && drawn.overlay.is_none() && !drawn.animate);
    assert!(drawn.keeps_search);
    assert_eq!(front(&layout(true)).as_deref(), Some("chat"));
    assert_eq!(front(&Layout { focused: 1, ..layout(true) }), None);
}

#[test]
fn menus_hang_under_their_own_names() {
    let named = |which| {
        let (id, name) = hanging(which);
        format!("{id}: {name}")
    };
    assert_eq!(named(Popover::Node), "node-status: Node status");
    assert_eq!(named(Popover::Account), "account-menu: Account");
    assert_eq!(named(Popover::Notifications), "notifications: Notifications");
}

#[test]
fn the_bar_is_measured_again_for_other_words() {
    let rail = |note, badge| vec![row("chat", "Chat", note, false, badge)];
    let made = bar_words(&facts(), &rail(None, 0));
    assert!(same_words(&made, &bar_words(&facts(), &rail(None, 9))), "counts are no words");
    assert!(!same_words(&made, &bar_words(&facts(), &rail(Some("Failed"), 0))));
    assert!(!same_words(&made, &bar_words(&facts(), &vec![])));
    let empty = vec![RailRow { empty: true, ..row("chat", "Chat", None, false, 0) }];
    assert!(!same_words(&made, &bar_words(&facts(), &empty)));
    let renamed = vec![row("chat", "Talk", None, false, 0)];
    assert!(!same_words(&made, &bar_words(&facts(), &renamed)));
    let account = |number, name: &str| Facts {
        holder: Holder::Account { number, name: name.to_owned(), initials: String::new() },
        ..facts()
    };
    for other in [
        Facts { network: "other".to_owned(), ..facts() },
        Facts { unlocked: false, ..facts() },
        Facts { holder: Holder::Nobody, ..facts() },
        account(1, "ada"),
    ] {
        let words = bar_words(&other, &rail(None, 0));
        assert!(measures_again(&Some(words), &made));
    }
    let ada = bar_words(&account(1, "ada"), &vec![]);
    assert!(!same_words(&ada, &bar_words(&account(2, "ada"), &vec![])));
    assert!(!same_words(&ada, &bar_words(&account(1, "bob"), &vec![])));
    let unread = Facts { unread: 7, height: 3, ..facts() };
    assert!(!measures_again(&Some(made), &bar_words(&unread, &rail(None, 1))));
    assert!(measures_again(&None, &ada));
}

#[test]
fn windows_open_under_their_titles() {
    let launcher = open_window::<char>(WindowKind::Console, "x", None, true, true);
    assert_eq!(launcher.title, "Ducktape");
    assert_eq!(launcher.extent, Extent::Launcher);
    assert!(matches!(launcher.place, Place::Centred));
    assert!(launcher.transparent);
    let view = open_window(WindowKind::View, "Chat", Some('b'), true, false);
    assert_eq!(view.title, "Chat");
    assert_eq!(view.extent, Extent::Window);
    assert!(matches!(view.place, Place::At('b')));
    assert!(!view.transparent);
}

#[test]
fn a_window_that_does_not_open_gives_its_pane_back() {
    let kept = opened(7, None);
    assert!(matches!(kept[..], [Then::Keep { key: 7 }, Then::Reply { key: 7 }]));
    let given = opened(7, Some("no display".to_owned()));
    assert!(matches!(
        &given[..],
        [Then::PopIn { key: 7 }, Then::Closed { key: 7 }, Then::Say { error }]
            if error == "The window could not be opened: no display"
    ));
}
