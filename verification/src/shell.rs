//! The native chrome, and nothing a network decides: a window, a screen to
//! reach a node and unlock a key, a menu bar of whatever programs that node
//! runs, and one seat that draws the open program's view.

use vstd::prelude::*;

use crate::shell::menubar::Overlay;
use crate::text::decimal_of;
use crate::text::joined;

pub mod desk;
pub mod menubar;
pub mod notifications;
pub mod windows;

verus! {

/// What a window is: the one the app lives in, or one of a program's own.
#[derive(Clone, Copy, Debug, PartialEq, Eq, Structural)]
pub enum WindowKind {
    Console,
    View,
}

/// How the platform writes a command chord.
pub open spec fn chord_text(key: Seq<char>, mac: bool) -> Seq<char> {
    if mac {
        "⌘"@ + key
    } else {
        "Ctrl "@ + key
    }
}

/// How the platform writes a command chord: "⌘K" on a Mac, "Ctrl K" elsewhere.
pub fn chord_label(key: &str, mac: bool) -> (label: String)
    ensures
        label@ == chord_text(key@, mac),
{
    if mac {
        joined("⌘", key)
    } else {
        joined("Ctrl ", key)
    }
}

// ---------- commands ----------
/// What other layers ask of the shell. Windows go by their keys.
#[derive(Debug)]
pub enum Command<B> {
    /// A window, in these bounds or at the display's centre.
    Open { key: u64, kind: WindowKind, at: Option<B> },
    Raise(u64),
    /// A window off the screen (a pop-out whose pane left it).
    Close(u64),
    /// The appearance the model holds, onto the app's theme.
    SyncAppearance,
    /// The console window to the launcher's size or the desk's, as the stage
    /// now is.
    SwapConsole,
    /// A link pressed off the window thread: the reducer reads it.
    OpenLink(String),
    /// A web page, for the system browser.
    OpenUrl(String),
    Quit,
}

/// A link pressed off the window thread (a banner's click).
pub fn open_link<B>(url: String) -> (command: Command<B>)
    ensures
        command == Command::<B>::OpenLink(url),
{
    Command::OpenLink(url)
}

/// A web page for the system browser, asked for off the window thread (the
/// passkey ceremony's page).
pub fn open_url_now<B>(url: String) -> (command: Command<B>)
    ensures
        command == Command::<B>::OpenUrl(url),
{
    Command::OpenUrl(url)
}

/// What a command comes to.
#[derive(Debug)]
pub enum Act<B> {
    Open { key: u64, kind: WindowKind, at: Option<B> },
    /// The window comes to the front.
    Activate(u64),
    /// The window lets go of its input and leaves the screen.
    Remove(u64),
    /// The theme follows the model, and what is drawn the theme.
    Theme,
    Swap,
    /// The reducer is handed a link.
    Link(String),
    /// The system browser is handed a page.
    Browse(String),
    /// Each of these windows lets go of its input, in order; then the app ends.
    Quit { release: Vec<u64> },
    /// Nothing: there is no such window.
    Nothing,
}

/// Whether `act` is what `command` comes to in a shell that has `windows`.
pub open spec fn comes_to<B>(command: Command<B>, windows: Seq<u64>, act: Act<B>) -> bool {
    match command {
        Command::Open { key, kind, at } => act == (Act::Open { key, kind, at }),
        Command::Raise(key) => act == (if among(windows, windows.len() as int, key) {
            Act::<B>::Activate(key)
        } else {
            Act::Nothing
        }),
        Command::Close(key) => act == (if among(windows, windows.len() as int, key) {
            Act::<B>::Remove(key)
        } else {
            Act::Nothing
        }),
        Command::SyncAppearance => act is Theme,
        Command::SwapConsole => act is Swap,
        Command::OpenLink(link) => act == Act::<B>::Link(link),
        Command::OpenUrl(url) => act == Act::<B>::Browse(url),
        Command::Quit => act matches Act::Quit { release } && release@ == windows,
    }
}

/// What `command` comes to in a shell that has `windows`.
pub fn execute<B>(command: Command<B>, windows: &Vec<u64>) -> (act: Act<B>)
    ensures
        comes_to(command, windows@, act),
{
    match command {
        Command::Open { key, kind, at } => Act::Open { key, kind, at },
        Command::Raise(key) => if holds(windows, key) {
            Act::Activate(key)
        } else {
            Act::Nothing
        },
        Command::Close(key) => if holds(windows, key) {
            Act::Remove(key)
        } else {
            Act::Nothing
        },
        Command::SyncAppearance => Act::Theme,
        Command::SwapConsole => Act::Swap,
        Command::OpenLink(link) => Act::Link(link),
        Command::OpenUrl(url) => Act::Browse(url),
        Command::Quit => {
            let mut release: Vec<u64> = Vec::new();
            let mut at: usize = 0;
            while at < windows.len()
                invariant
                    at <= windows@.len(),
                    release@ == windows@.take(at as int),
                decreases windows@.len() - at,
            {
                release.push(windows[at]);
                assert(release@ =~= windows@.take(at + 1));
                at += 1;
            }
            assert(windows@.take(at as int) =~= windows@);
            Act::Quit { release }
        },
    }
}

/// The appearance the model holds.
#[derive(Clone, Copy, Debug, PartialEq, Eq, Structural)]
pub enum Appearance {
    Light,
    Dark,
    System,
}

/// What the theme is set to: dark or not, or `None` for whatever the system is
/// at.
pub fn sync_appearance(appearance: Appearance) -> (dark: Option<bool>)
    ensures
        dark == (match appearance {
            Appearance::Light => Some(false),
            Appearance::Dark => Some(true),
            Appearance::System => None,
        }),
{
    match appearance {
        Appearance::Light => Some(false),
        Appearance::Dark => Some(true),
        Appearance::System => None,
    }
}

// ---------- leaving full size ----------
/// How long a window leaving full size has to report its frame, in
/// milliseconds.
pub const LEAVE_FULL_SIZE: u64 = 3_000;

/// How long a frame has to stand before it is the one, in milliseconds: a
/// window manager can send the state and the frame as separate events, in
/// either order.
pub const FRAME_SETTLES: u64 = 100;

/// A window leaving full size, and the last frame it said it went back to.
#[derive(Debug)]
pub struct Leaving<F> {
    pub give_up: u64,
    pub last: Option<F>,
}

/// What a wait ended with: the window reported (`None` while still full
/// size), or nothing came in time, or nothing will.
#[derive(Debug)]
pub enum Heard<F> {
    Frame(Option<F>),
    Nothing,
}

/// What comes after a wait.
#[derive(Debug)]
pub enum Next<F> {
    Wait(Leaving<F>),
    Done(Option<F>),
}

/// The frame a window went back to, as far as it is known once it reports
/// `frame` after `last`.
pub open spec fn heard_frame<F>(last: Option<F>, frame: Option<F>) -> Option<F> {
    if frame is Some {
        frame
    } else {
        last
    }
}

/// The frame known once every one of `said` has been reported.
pub open spec fn heard_all<F>(said: Seq<Option<F>>) -> Option<F>
    decreases said.len(),
{
    if said.len() == 0 {
        None
    } else {
        heard_frame(heard_all(said.drop_last()), said.last())
    }
}

impl<F> Leaving<F> {
    /// A window that began leaving full size at `now`.
    pub fn begin(now: u64) -> (leaving: Self)
        requires
            now + LEAVE_FULL_SIZE <= u64::MAX,
        ensures
            leaving.give_up == now + LEAVE_FULL_SIZE,
            leaving.last is None,
    {
        Leaving { give_up: now + LEAVE_FULL_SIZE, last: None }
    }

    /// How long to wait for the next report, at `now`: until the window is
    /// given up on, and no longer than a frame takes to settle once it has
    /// said one.
    pub fn wait(&self, now: u64) -> (wait: u64)
        ensures
            ({
                let left = if self.give_up > now {
                    self.give_up - now
                } else {
                    0
                };
                wait == (if self.last is Some && left > FRAME_SETTLES {
                    FRAME_SETTLES as int
                } else {
                    left
                })
            }),
    {
        let left: u64 = if self.give_up > now {
            self.give_up - now
        } else {
            0
        };
        if self.last.is_some() && left > FRAME_SETTLES {
            FRAME_SETTLES
        } else {
            left
        }
    }

    /// What comes after a wait that ended with `heard`: a frame takes the
    /// place of the one before, and silence ends the wait.
    pub fn left_full_size(self, heard: Heard<F>) -> (next: Next<F>)
        ensures
            match heard {
                Heard::Frame(frame) => next == Next::Wait(
                    Leaving { give_up: self.give_up, last: heard_frame(self.last, frame) },
                ),
                Heard::Nothing => next == Next::Done(self.last),
            },
    {
        match heard {
            Heard::Frame(frame) => {
                let last = if frame.is_some() {
                    frame
                } else {
                    self.last
                };
                Next::Wait(Leaving { give_up: self.give_up, last })
            },
            Heard::Nothing => Next::Done(self.last),
        }
    }
}

/// However many reports come, the frame known after them is the last that any
/// of them named; there is none only where none named one.
pub proof fn the_wait_ends_with_the_last_frame_said<F>(said: Seq<Option<F>>)
    ensures
        match heard_all(said) {
            Some(frame) => exists|i: int|
                0 <= i < said.len() && #[trigger] said[i] == Some(frame) && forall|j: int|
                    i < j < said.len() ==> (#[trigger] said[j]) is None,
            None => forall|i: int| 0 <= i < said.len() ==> (#[trigger] said[i]) is None,
        },
    decreases said.len(),
{
    if said.len() > 0 {
        let before = said.drop_last();
        the_wait_ends_with_the_last_frame_said(before);
        assert(forall|i: int| 0 <= i < before.len() ==> before[i] == said[i]);
        if said.last() is Some {
            assert(said[said.len() - 1] == said.last());
        } else if let Some(frame) = heard_all(before) {
            let i = choose|i: int|
                0 <= i < before.len() && #[trigger] before[i] == Some(frame) && forall|j: int|
                    i < j < before.len() ==> (#[trigger] before[j]) is None;
            assert(said[i] == Some(frame));
            assert forall|j: int| i < j < said.len() implies (#[trigger] said[j]) is None by {
                if j < before.len() {
                    assert(before[j] is None);
                }
            }
        } else {
            assert forall|i: int| 0 <= i < said.len() implies (#[trigger] said[i]) is None by {
                if i < before.len() {
                    assert(before[i] is None);
                }
            }
        }
    }
}

// ---------- crossing between the launcher and the desk ----------
/// A window's frame, and how it stands in it: windowed, or full size with the
/// frame it goes back to.
#[derive(Clone, Copy, Debug)]
pub enum WindowBounds<B> {
    Windowed(B),
    Maximized(B),
    Fullscreen(B),
}

/// How a full-size window leaves that state.
#[derive(Clone, Copy, Debug, PartialEq, Eq, Structural)]
pub enum Leave {
    Stay,
    ToggleFullscreen,
    Zoom,
}

/// Where a crossing puts the window.
#[derive(Clone, Copy, Debug)]
pub enum To<B> {
    /// Centred, at the launcher's size.
    Launcher,
    /// Where the desk was.
    Back(B),
    /// Centred, at a window's first size.
    Centred,
}

/// How a window about to cross stood, and how it leaves full size. A Mac's
/// maximized is only a size, which a new frame replaces.
pub fn leave<B>(fullscreen: bool, maximized: bool, bounds: B, mac: bool) -> (left: (
    WindowBounds<B>,
    Leave,
))
    ensures
        left.0 == (if fullscreen {
            WindowBounds::Fullscreen(bounds)
        } else if maximized {
            WindowBounds::Maximized(bounds)
        } else {
            WindowBounds::Windowed(bounds)
        }),
        left.1 == (if fullscreen {
            Leave::ToggleFullscreen
        } else if maximized && !mac {
            Leave::Zoom
        } else {
            Leave::Stay
        }),
{
    if fullscreen {
        (WindowBounds::Fullscreen(bounds), Leave::ToggleFullscreen)
    } else if maximized {
        let how = if mac {
            Leave::Stay
        } else {
            Leave::Zoom
        };
        (WindowBounds::Maximized(bounds), how)
    } else {
        (WindowBounds::Windowed(bounds), Leave::Stay)
    }
}

/// How a window that stood as `left` stands for good: full size, over the
/// frame it went back to where it said one (`settled`), or else the frame it
/// has once it is no longer full size (`now`). A window that was windowed, or
/// maximized on a Mac, has nothing to wait for.
pub fn swapped<B>(left: WindowBounds<B>, settled: Option<B>, now: Option<B>, mac: bool) -> (kept:
    WindowBounds<B>)
    ensures
        kept == (match left {
            WindowBounds::Fullscreen(_) if settled is Some => WindowBounds::Fullscreen(settled->0),
            WindowBounds::Fullscreen(_) if now is Some => WindowBounds::Fullscreen(now->0),
            WindowBounds::Maximized(_) if !mac && settled is Some => WindowBounds::Maximized(
                settled->0,
            ),
            WindowBounds::Maximized(_) if !mac && now is Some => WindowBounds::Maximized(now->0),
            _ => left,
        }),
{
    let restored = match settled {
        Some(frame) => Some(frame),
        None => now,
    };
    match left {
        WindowBounds::Fullscreen(bounds) => match restored {
            Some(frame) => WindowBounds::Fullscreen(frame),
            None => WindowBounds::Fullscreen(bounds),
        },
        WindowBounds::Maximized(bounds) => match restored {
            Some(frame) => if mac {
                WindowBounds::Maximized(bounds)
            } else {
                WindowBounds::Maximized(frame)
            },
            None => WindowBounds::Maximized(bounds),
        },
        WindowBounds::Windowed(bounds) => WindowBounds::Windowed(bounds),
    }
}

/// Whether a window that stood as `left` goes back to a frame worth waiting
/// for.
pub fn waits<B>(left: &WindowBounds<B>, mac: bool) -> (yes: bool)
    ensures
        yes == (left is Fullscreen || left is Maximized && !mac),
{
    match left {
        WindowBounds::Fullscreen(_) => true,
        WindowBounds::Maximized(_) => !mac,
        WindowBounds::Windowed(_) => false,
    }
}

/// The frame in `bounds`.
pub open spec fn frame_of<B>(bounds: WindowBounds<B>) -> B {
    match bounds {
        WindowBounds::Windowed(frame) => frame,
        WindowBounds::Maximized(frame) => frame,
        WindowBounds::Fullscreen(frame) => frame,
    }
}

/// How a window the desk comes back in goes full size again, if it had been.
pub open spec fn goes_full<B>(desk: Option<WindowBounds<B>>, mac: bool) -> Leave {
    match desk {
        Some(WindowBounds::Fullscreen(_)) => Leave::ToggleFullscreen,
        Some(WindowBounds::Maximized(_)) => if mac {
            Leave::Stay
        } else {
            Leave::Zoom
        },
        _ => Leave::Stay,
    }
}

/// The window a crossing resizes: the console's, while the shell has both it
/// and its view.
pub open spec fn crosses(console: Option<u64>, windows: Seq<u64>, views: Seq<u64>) -> Option<u64> {
    match console {
        Some(key) => if among(windows, windows.len() as int, key) && among(
            views,
            views.len() as int,
            key,
        ) {
            Some(key)
        } else {
            None
        },
        None => None,
    }
}

/// Where a crossing puts the window, and how it goes full size after.
pub open spec fn crossing_of<B>(launcher: bool, desk: Option<WindowBounds<B>>, mac: bool) -> (
    To<B>,
    Leave,
) {
    if launcher {
        (To::Launcher, Leave::Stay)
    } else {
        (
            match desk {
                Some(desk) => To::Back(frame_of(desk)),
                None => To::Centred,
            },
            goes_full(desk, mac),
        )
    }
}

/// The desk remembered after a crossing that began with the window standing as
/// `left`: that, on the way to the launcher, and otherwise the one before.
pub open spec fn desk_after<B>(
    launcher: bool,
    desk: Option<WindowBounds<B>>,
    left: Option<WindowBounds<B>>,
) -> Option<WindowBounds<B>> {
    if launcher {
        left
    } else {
        desk
    }
}

/// The window a crossing resizes, of the shell's `windows` and `views` by key.
pub fn crossing_window(console: Option<u64>, windows: &Vec<u64>, views: &Vec<u64>) -> (window:
    Option<u64>)
    ensures
        window == crosses(console, windows@, views@),
{
    match console {
        Some(key) => if holds(windows, key) && holds(views, key) {
            Some(key)
        } else {
            None
        },
        None => None,
    }
}

/// Crosses to the launcher, or to the desk: where `window` goes, and how it
/// goes full size after. The launcher comes up centred; the desk comes back
/// where it was, full size again if it had been. Without a window to cross
/// nothing happens.
pub fn swap_console<B>(
    window: Option<u64>,
    launcher: bool,
    desk: Option<WindowBounds<B>>,
    mac: bool,
) -> (crossing: Option<(To<B>, Leave)>)
    ensures
        crossing == (if window is Some {
            Some(crossing_of(launcher, desk, mac))
        } else {
            None
        }),
{
    if window.is_none() {
        return None;
    }
    if launcher {
        return Some((To::Launcher, Leave::Stay));
    }
    Some(
        match desk {
            None => (To::Centred, Leave::Stay),
            Some(WindowBounds::Windowed(frame)) => (To::Back(frame), Leave::Stay),
            Some(WindowBounds::Fullscreen(frame)) => (To::Back(frame), Leave::ToggleFullscreen),
            Some(WindowBounds::Maximized(frame)) => (
                To::Back(frame),
                if mac {
                    Leave::Stay
                } else {
                    Leave::Zoom
                },
            ),
        },
    )
}

/// The desk remembered after a crossing: on the way to the launcher, how the
/// window that gave way stood (`None` where that was never learned), and
/// otherwise the desk remembered before.
pub fn remembered<B>(
    launcher: bool,
    desk: Option<WindowBounds<B>>,
    left: Option<WindowBounds<B>>,
) -> (after: Option<WindowBounds<B>>)
    ensures
        after == desk_after(launcher, desk, left),
        after == (if launcher {
            left
        } else {
            desk
        }),
{
    if launcher {
        left
    } else {
        desk
    }
}

/// The desk that gave way to the launcher standing as `left` comes back to the
/// frame it left, full size again if it had been, whatever was remembered
/// before; and it is still what is remembered after.
pub proof fn the_desk_goes_back_to_what_it_left<B>(
    desk: Option<WindowBounds<B>>,
    left: WindowBounds<B>,
    back: Option<WindowBounds<B>>,
    mac: bool,
)
    ensures
        ({
            let kept = desk_after(true, desk, Some(left));
            &&& crossing_of(false, kept, mac) == (
                To::Back(frame_of(left)),
                goes_full(Some(left), mac),
            )
            &&& desk_after(false, kept, back) == Some(left)
        }),
{
}

/// What a desk that stood as it did when it gave way to the launcher comes
/// back to: the way out of full size is the way back into it.
pub proof fn the_desk_comes_back_as_it_stood<B>(
    fullscreen: bool,
    maximized: bool,
    bounds: B,
    mac: bool,
)
    ensures
        ({
            let stood = if fullscreen {
                WindowBounds::Fullscreen(bounds)
            } else if maximized {
                WindowBounds::Maximized(bounds)
            } else {
                WindowBounds::Windowed(bounds)
            };
            let out = if fullscreen {
                Leave::ToggleFullscreen
            } else if maximized && !mac {
                Leave::Zoom
            } else {
                Leave::Stay
            };
            goes_full(Some(stood), mac) == out && frame_of(stood) == bounds
        }),
{
}

// ---------- the desktop ----------
/// What the `nth` window is called by assistive technology, counting from one.
pub open spec fn window_name(nth: int) -> Seq<char> {
    if nth == 1 {
        "console"@
    } else {
        "console"@ + crate::text::decimal(nth as nat)
    }
}

/// What each of `count` windows is called, in order.
pub fn ax_windows(count: usize) -> (names: Vec<String>)
    ensures
        names@.len() == count,
        forall|i: int| 0 <= i < count ==> (#[trigger] names@[i])@ == window_name(i + 1),
{
    let mut names: Vec<String> = Vec::new();
    let mut nth: usize = 0;
    while nth < count
        invariant
            nth <= count,
            names@.len() == nth,
            forall|i: int| 0 <= i < nth ==> (#[trigger] names@[i])@ == window_name(i + 1),
        decreases count - nth,
    {
        nth += 1;
        if nth == 1 {
            names.push("console".to_owned());
        } else {
            names.push(joined("console", decimal_of(nth as u64).as_str()));
        }
    }
    names
}

/// Whether `keys` holds `key` before `upto`.
pub open spec fn among(keys: Seq<u64>, upto: int, key: u64) -> bool {
    exists|i: int| 0 <= i < upto && #[trigger] keys[i] == key
}

fn holds(keys: &Vec<u64>, key: u64) -> (yes: bool)
    ensures
        yes == among(keys@, keys@.len() as int, key),
{
    let mut at: usize = 0;
    while at < keys.len()
        invariant
            at <= keys@.len(),
            forall|i: int| 0 <= i < at ==> #[trigger] keys@[i] != key,
        decreases keys@.len() - at,
    {
        if keys[at] == key {
            return true;
        }
        at += 1;
    }
    false
}

/// What becomes of the streams that run, by key: whether each goes on, and
/// which of the `wanted` start. A stream goes on exactly while it is wanted;
/// one starts at the first place a key is wanted that does not run yet.
pub fn subscriptions(running: &Vec<u64>, wanted: &Vec<u64>) -> (plan: (Vec<bool>, Vec<bool>))
    ensures
        plan.0@.len() == running@.len(),
        forall|i: int|
            0 <= i < running@.len() ==> #[trigger] plan.0@[i] == among(
                wanted@,
                wanted@.len() as int,
                running@[i],
            ),
        plan.1@.len() == wanted@.len(),
        forall|i: int|
            0 <= i < wanted@.len() ==> #[trigger] plan.1@[i] == !(among(
                running@,
                running@.len() as int,
                wanted@[i],
            ) || among(wanted@, i, wanted@[i])),
{
    let mut goes_on: Vec<bool> = Vec::new();
    let mut at: usize = 0;
    while at < running.len()
        invariant
            at <= running@.len(),
            goes_on@.len() == at,
            forall|i: int|
                0 <= i < at ==> #[trigger] goes_on@[i] == among(
                    wanted@,
                    wanted@.len() as int,
                    running@[i],
                ),
        decreases running@.len() - at,
    {
        goes_on.push(holds(wanted, running[at]));
        at += 1;
    }
    let mut starts: Vec<bool> = Vec::new();
    let mut seen: Vec<u64> = Vec::new();
    at = 0;
    while at < wanted.len()
        invariant
            at <= wanted@.len(),
            starts@.len() == at,
            seen@ == wanted@.take(at as int),
            forall|i: int|
                0 <= i < at ==> #[trigger] starts@[i] == !(among(
                    running@,
                    running@.len() as int,
                    wanted@[i],
                ) || among(wanted@, i, wanted@[i])),
        decreases wanted@.len() - at,
    {
        let before = holds(&seen, wanted[at]);
        assert(before == among(wanted@, at as int, wanted@[at as int])) by {
            if among(wanted@, at as int, wanted@[at as int]) {
                let i = choose|i: int| 0 <= i < at && wanted@[i] == wanted@[at as int];
                assert(seen@[i] == wanted@[at as int]);
            }
            if before {
                let i = choose|i: int| 0 <= i < seen@.len() && seen@[i] == wanted@[at as int];
                assert(wanted@[i] == wanted@[at as int]);
            }
        }
        starts.push(!(holds(running, wanted[at]) || before));
        seen.push(wanted[at]);
        at += 1;
    }
    (goes_on, starts)
}

// ---------- the window ----------
/// Whether `key` is one of `keys` that `marks` marks.
pub open spec fn marked(keys: Seq<u64>, marks: Seq<bool>, key: u64) -> bool {
    exists|i: int| 0 <= i < keys.len() && #[trigger] keys[i] == key && marks[i]
}

proof fn first_place(keys: Seq<u64>, upto: int, key: u64) -> (place: int)
    requires
        0 <= upto <= keys.len(),
        among(keys, upto, key),
    ensures
        0 <= place < upto,
        keys[place] == key,
        !among(keys, place, key),
    decreases upto,
{
    let i = choose|i: int| 0 <= i < upto && #[trigger] keys[i] == key;
    if among(keys, i, key) {
        first_place(keys, i, key)
    } else {
        i
    }
}

/// Whatever ran before, exactly the streams that are wanted run after, each
/// once: `kept` says which go on, and `started` which start.
pub proof fn exactly_the_wanted_streams_run(
    running: Seq<u64>,
    wanted: Seq<u64>,
    kept: Seq<bool>,
    started: Seq<bool>,
    key: u64,
)
    requires
        forall|i: int|
            0 <= i < running.len() ==> #[trigger] kept[i] == among(
                wanted,
                wanted.len() as int,
                running[i],
            ),
        forall|i: int|
            0 <= i < wanted.len() ==> #[trigger] started[i] == !(among(
                running,
                running.len() as int,
                wanted[i],
            ) || among(wanted, i, wanted[i])),
    ensures
        among(wanted, wanted.len() as int, key) <==> marked(running, kept, key) || marked(
            wanted,
            started,
            key,
        ),
        !(marked(running, kept, key) && marked(wanted, started, key)),
        forall|i: int, j: int|
            0 <= i < wanted.len() && 0 <= j < wanted.len() && #[trigger] wanted[i] == key
                && #[trigger] wanted[j] == key && started[i] && started[j] ==> i == j,
{
    if among(wanted, wanted.len() as int, key) {
        if among(running, running.len() as int, key) {
            let i = choose|i: int| 0 <= i < running.len() && #[trigger] running[i] == key;
            assert(kept[i]);
        } else {
            let place = first_place(wanted, wanted.len() as int, key);
            assert(started[place]);
        }
    }
    assert forall|i: int, j: int|
        0 <= i < wanted.len() && 0 <= j < wanted.len() && #[trigger] wanted[i] == key
            && #[trigger] wanted[j] == key && started[i] && started[j] implies i == j by {
        if i < j {
            assert(among(wanted, j, key));
        } else if j < i {
            assert(among(wanted, i, key));
        }
    }
}

/// What the model hears when a window gains or loses focus.
#[derive(Clone, Copy, Debug, PartialEq, Eq, Structural)]
pub enum Activation {
    Focused(u64),
    Unfocused(u64),
}

/// What the model hears of the window `key`, now that it is active or not.
pub fn activation(key: u64, active: bool) -> (message: Activation)
    ensures
        message == (if active {
            Activation::Focused(key)
        } else {
            Activation::Unfocused(key)
        }),
{
    if active {
        Activation::Focused(key)
    } else {
        Activation::Unfocused(key)
    }
}

/// What befalls a window that the views in it are told of.
#[derive(Clone, Copy, Debug, PartialEq, Eq, Structural)]
pub enum WindowEvent {
    /// The person asks for it to close.
    CloseRequested,
    /// It is gone.
    Closed,
}

/// What follows a window event.
#[derive(Debug)]
pub struct Following {
    /// The views that are told, by instance, in their panes' order.
    pub told: Vec<u64>,
    /// Whether the window lets go of its input then, and is closed.
    pub closes: bool,
}

/// Those of `panes` that have a view among `mounted`, in order.
pub open spec fn with_views(panes: Seq<u64>, mounted: Seq<u64>) -> Seq<u64>
    decreases panes.len(),
{
    if panes.len() == 0 {
        Seq::empty()
    } else if among(mounted, mounted.len() as int, panes.last()) {
        with_views(panes.drop_last(), mounted).push(panes.last())
    } else {
        with_views(panes.drop_last(), mounted)
    }
}

/// What follows `event` in a window with `panes`, by instance: every pane's
/// view that is `mounted` is told of it, and a window asked to close then
/// does.
pub fn observe_window(event: WindowEvent, panes: &Vec<u64>, mounted: &Vec<u64>) -> (following:
    Following)
    ensures
        following.told@ == with_views(panes@, mounted@),
        following.closes == (event == WindowEvent::CloseRequested),
{
    let mut told: Vec<u64> = Vec::new();
    let mut at: usize = 0;
    while at < panes.len()
        invariant
            at <= panes@.len(),
            told@ == with_views(panes@.take(at as int), mounted@),
        decreases panes@.len() - at,
    {
        assert(panes@.take(at + 1).drop_last() =~= panes@.take(at as int));
        if holds(mounted, panes[at]) {
            told.push(panes[at]);
        }
        at += 1;
    }
    assert(panes@.take(at as int) =~= panes@);
    Following { told, closes: event == WindowEvent::CloseRequested }
}

/// Whether the desk's own keys reach a window: the console's, on the desk,
/// with nothing over it keeping its keys.
pub fn desk_keys(kind: WindowKind, in_launcher: bool, overlay: Option<Overlay>) -> (yes: bool)
    ensures
        yes == (kind == WindowKind::Console && !in_launcher && overlay is None),
{
    kind == WindowKind::Console && !in_launcher && overlay.is_none()
}

/// What the close chord closes: the focused of `panes` desk windows, when the
/// desk's keys reach it and it has one; `None` is the app's window.
pub fn command_w_pane(reached: bool, panes: usize, focused: usize) -> (pane: Option<usize>)
    ensures
        pane == (if reached && panes > 0 {
            Some(focused)
        } else {
            None
        }),
{
    if reached && panes > 0 {
        Some(focused)
    } else {
        None
    }
}

/// What the close chord does to the app's window.
#[derive(Clone, Copy, Debug, PartialEq, Eq, Structural)]
pub enum ByKey {
    Minimize,
    Close,
}

/// The close chord closes a window, never the app: the console closes where
/// the status item reopens it (a Mac), and minimizes elsewhere, where the last
/// window closing would quit.
pub fn close_by_key(kind: WindowKind, mac: bool) -> (done: ByKey)
    ensures
        done == (if kind == WindowKind::Console && !mac {
            ByKey::Minimize
        } else {
            ByKey::Close
        }),
{
    if kind == WindowKind::Console && !mac {
        ByKey::Minimize
    } else {
        ByKey::Close
    }
}

/// Where the app is.
#[derive(Clone, Copy, Debug, PartialEq, Eq, Structural)]
pub enum Stage {
    Connect,
    Phrase,
    Unlock,
    Recover,
    Account,
    Desk,
}

/// What a window draws.
#[derive(Clone, Copy, Debug, PartialEq, Eq, Structural)]
pub enum Screen {
    Step(Stage),
    Console,
}

/// What a window of `kind` draws while the app is at `stage`: the console
/// draws the step before the desk, a program's own window is always the desk's.
pub fn screen(kind: WindowKind, stage: Stage) -> (drawn: Screen)
    ensures
        drawn == (if kind == WindowKind::View || stage == Stage::Desk {
            Screen::Console
        } else {
            Screen::Step(stage)
        }),
{
    if kind == WindowKind::View || stage == Stage::Desk {
        Screen::Console
    } else {
        Screen::Step(stage)
    }
}

// ---------- what these come to ----------
/// A chord is its key behind the platform's sign for the command key: one
/// character on a Mac, `Ctrl` and a space elsewhere.
pub proof fn a_chord_ends_in_its_key(key: &str, mac: bool, label: String)
    requires
        call_ensures(chord_label, (key, mac), label),
    ensures
        label@.skip(label@.len() - key@.len()) == key@,
        mac ==> label@.len() == key@.len() + 1 && label@[0] == '⌘',
        !mac ==> label@.len() == key@.len() + 5 && label@[0] == 'C' && label@[1] == 't' && label@[2]
            == 'r' && label@[3] == 'l' && label@[4] == ' ',
{
    reveal_strlit("⌘");
    reveal_strlit("Ctrl ");
    assert(label@.skip(label@.len() - key@.len()) =~= key@);
}

/// A window is raised or closed only where the shell has it; quitting lets go
/// of every window it has, in order; and what is asked for is what is done.
pub proof fn a_command_comes_to_what_it_says<B>(
    command: Command<B>,
    windows: &Vec<u64>,
    act: Act<B>,
)
    requires
        call_ensures(execute::<B>, (command, windows), act),
    ensures
        command matches Command::Raise(key) ==> (windows@.contains(key) ==> act
            == Act::<B>::Activate(key)) && (!windows@.contains(key) ==> act is Nothing),
        command matches Command::Close(key) ==> (windows@.contains(key) ==> act == Act::<B>::Remove(
            key,
        )) && (!windows@.contains(key) ==> act is Nothing),
        command is Open ==> act is Open && act->Open_key == command->Open_key && act->Open_kind
            == command->Open_kind && act->Open_at == command->Open_at,
        act is Theme <==> command is SyncAppearance,
        act is Swap <==> command is SwapConsole,
        command matches Command::OpenLink(url) ==> act == Act::<B>::Link(url),
        command matches Command::OpenUrl(url) ==> act == Act::<B>::Browse(url),
        act is Quit <==> command is Quit,
        act matches Act::Quit { release } ==> release@ == windows@,
        act is Nothing ==> command is Raise || command is Close,
{
    let count = windows@.len() as int;
    if let Command::Raise(key) = command {
        assert(windows@.contains(key) <==> among(windows@, count, key));
    }
    if let Command::Close(key) = command {
        assert(windows@.contains(key) <==> among(windows@, count, key));
    }
}

/// What is pressed off the window thread is told apart from a page for the
/// browser, and comes to just that.
pub proof fn a_link_is_not_a_page<B>(
    url: String,
    link: Command<B>,
    page: Command<B>,
    windows: &Vec<u64>,
    followed: Act<B>,
    browsed: Act<B>,
)
    requires
        call_ensures(open_link::<B>, (url,), link),
        call_ensures(open_url_now::<B>, (url,), page),
        call_ensures(execute::<B>, (link, windows), followed),
        call_ensures(execute::<B>, (page, windows), browsed),
    ensures
        followed == Act::<B>::Link(url),
        browsed == Act::<B>::Browse(url),
{
}

/// The theme is dark for dark alone and the system's for the system's alone.
pub proof fn the_theme_follows_the_model(appearance: Appearance, dark: Option<bool>)
    requires
        call_ensures(sync_appearance, (appearance,), dark),
    ensures
        dark is None <==> appearance is System,
        dark == Some(true) <==> appearance is Dark,
        dark == Some(false) <==> appearance is Light,
{
}

/// A window leaving full size is waited for three seconds and no longer: as
/// long as is left of them until it says a frame, and a tenth of a second at
/// most once it has.
pub proof fn a_window_is_waited_for_until_it_settles<F>(
    began: u64,
    leaving: Leaving<F>,
    now: u64,
    waited: Leaving<F>,
    wait: u64,
)
    requires
        call_ensures(Leaving::<F>::begin, (began,), leaving),
        waited.give_up == leaving.give_up,
        call_ensures(Leaving::<F>::wait, (&waited, now), wait),
        began <= now,
    ensures
        leaving.last is None,
        wait <= 3000 && (now - began >= 3000 ==> wait == 0),
        now - began < 3000 && waited.last is None ==> now + wait == began + 3000,
        waited.last is Some ==> wait <= 100 && now + wait <= (if now > began + 3000 {
            now as int
        } else {
            began + 3000
        }),
        waited.last is Some && now - began <= 2900 ==> wait == 100,
{
}

/// A report keeps the window waited for, with the frame it named or the one
/// known before; only silence ends the wait, with the frame known.
pub proof fn only_silence_ends_the_wait<F>(leaving: Leaving<F>, heard: Heard<F>, next: Next<F>)
    requires
        call_ensures(Leaving::<F>::left_full_size, (leaving, heard), next),
    ensures
        next is Done <==> heard is Nothing,
        next matches Next::Done(frame) ==> frame == leaving.last,
        heard matches Heard::Frame(Some(frame)) ==> (next matches Next::Wait(after) && after.last
            == Some(frame) && after.give_up == leaving.give_up),
        heard matches Heard::Frame(None) ==> (next matches Next::Wait(after) && after.last
            == leaving.last && after.give_up == leaving.give_up),
{
}

/// A window that leaves full size to make way for the launcher is waited for,
/// and no other; and once the desk comes back, it goes the same way it left,
/// over the frame it settled at, or the one it had at the end, or the one it
/// was seen in first.
pub proof fn a_desk_is_put_away_and_comes_back<B>(
    fullscreen: bool,
    maximized: bool,
    bounds: B,
    mac: bool,
    left: (WindowBounds<B>, Leave),
    yes: bool,
    settled: Option<B>,
    now: Option<B>,
    kept: WindowBounds<B>,
    desk: Option<WindowBounds<B>>,
    after: Option<WindowBounds<B>>,
    window: u64,
    crossing: Option<(To<B>, Leave)>,
)
    requires
        call_ensures(leave::<B>, (fullscreen, maximized, bounds, mac), left),
        call_ensures(waits::<B>, (&left.0, mac), yes),
        call_ensures(swapped::<B>, (left.0, settled, now, mac), kept),
        call_ensures(remembered::<B>, (true, desk, Some(kept)), after),
        call_ensures(swap_console::<B>, (Some(window), false, after, mac), crossing),
    ensures
        yes <==> !(left.1 is Stay),
        yes <==> fullscreen || (maximized && !mac),
        left.1 is ToggleFullscreen <==> fullscreen,
        crossing matches Some((to, how)) && how == left.1 && (to matches To::Back(frame) && frame
            == (if yes && settled is Some {
            settled->0
        } else if yes && now is Some {
            now->0
        } else {
            bounds
        })),
{
}

/// The launcher comes up centred and full size never; a desk not seen before
/// comes up centred at a window's first size; and a crossing back forgets
/// nothing.
pub proof fn the_launcher_comes_up_centred<B>(
    window: Option<u64>,
    launcher: bool,
    desk: Option<WindowBounds<B>>,
    left: Option<WindowBounds<B>>,
    mac: bool,
    crossing: Option<(To<B>, Leave)>,
    after: Option<WindowBounds<B>>,
)
    requires
        call_ensures(swap_console::<B>, (window, launcher, desk, mac), crossing),
        call_ensures(remembered::<B>, (launcher, desk, left), after),
    ensures
        crossing is Some <==> window is Some,
        crossing matches Some((to, how)) ==> {
            &&& to is Launcher <==> launcher
            &&& to is Centred <==> !launcher && desk is None
            &&& launcher || desk is None ==> how is Stay
        },
        launcher ==> after == left,
        !launcher ==> after == desk,
{
}

/// The window a crossing resizes is the console's, and only while the shell
/// has its window and its view.
pub proof fn only_the_console_crosses(
    console: Option<u64>,
    windows: &Vec<u64>,
    views: &Vec<u64>,
    window: Option<u64>,
)
    requires
        call_ensures(crossing_window, (console, windows, views), window),
    ensures
        window is Some ==> window == console,
        console matches Some(key) ==> (window is Some <==> windows@.contains(key)
            && views@.contains(key)),
{
    if let Some(key) = console {
        assert(windows@.contains(key) <==> among(windows@, windows@.len() as int, key));
        assert(views@.contains(key) <==> among(views@, views@.len() as int, key));
    }
}

/// The first window is `console`, every other says its number too, and no two
/// are called alike.
pub proof fn windows_are_told_apart(count: usize, names: Vec<String>, i: int, j: int)
    requires
        call_ensures(ax_windows, (count,), names),
        0 <= i < j < count,
    ensures
        names@.len() == count,
        names@[0]@ == "console"@,
        names@[j]@ == "console"@ + crate::text::decimal((j + 1) as nat),
        names@[i]@ != names@[j]@,
{
    reveal_strlit("console");
    let a = crate::text::decimal((i + 1) as nat);
    let b = crate::text::decimal((j + 1) as nat);
    crate::text::a_decimal_is_of_one_number((i + 1) as nat, (j + 1) as nat);
    crate::text::a_decimal_is_of_one_number((j + 1) as nat, (i + 1) as nat);
    assert(names@[0]@ == window_name(1));
    assert(names@[i]@ == window_name(i + 1));
    assert(names@[j]@ == window_name(j + 1));
    assert(("console"@ + b).skip(7) =~= b);
    if i > 0 {
        assert(("console"@ + a).skip(7) =~= a);
    } else {
        assert("console"@.len() == 7);
    }
}

/// A stream goes on exactly while it is wanted; a wanted one that does not run
/// is started at the first place it is wanted, and at no other.
pub proof fn streams_go_on_while_they_are_wanted(
    running: &Vec<u64>,
    wanted: &Vec<u64>,
    plan: (Vec<bool>, Vec<bool>),
    key: u64,
)
    requires
        call_ensures(subscriptions, (running, wanted), plan),
    ensures
        plan.0@.len() == running@.len(),
        plan.1@.len() == wanted@.len(),
        forall|i: int|
            0 <= i < running@.len() ==> (#[trigger] plan.0@[i] <==> wanted@.contains(running@[i])),
        forall|i: int|
            0 <= i < wanted@.len() && running@.contains(wanted@[i]) ==> !(#[trigger] plan.1@[i]),
        wanted@.contains(key) && !running@.contains(key) ==> exists|i: int|
            0 <= i < wanted@.len() && wanted@[i] == key && #[trigger] plan.1@[i],
        forall|i: int, j: int|
            0 <= i < j < wanted@.len() && wanted@[i] == wanted@[j] ==> !(#[trigger] plan.1@[i]
                && #[trigger] plan.1@[j]),
{
    let count = wanted@.len() as int;
    assert forall|i: int| 0 <= i < running@.len() implies (#[trigger] plan.0@[i]
        <==> wanted@.contains(running@[i])) by {
        assert(wanted@.contains(running@[i]) <==> among(wanted@, count, running@[i]));
    }
    assert forall|i: int| 0 <= i < wanted@.len() && running@.contains(wanted@[i]) implies !(
    #[trigger] plan.1@[i]) by {
        assert(among(running@, running@.len() as int, wanted@[i]));
    }
    exactly_the_wanted_streams_run(running@, wanted@, plan.0@, plan.1@, key);
    if wanted@.contains(key) && !running@.contains(key) {
        assert(among(wanted@, count, key));
        assert(!marked(running@, plan.0@, key));
        let i = choose|i: int| 0 <= i < wanted@.len() && #[trigger] wanted@[i] == key && plan.1@[i];
        assert(plan.1@[i]);
    }
    assert forall|i: int, j: int|
        0 <= i < j < wanted@.len() && wanted@[i] == wanted@[j] implies !(#[trigger] plan.1@[i]
        && #[trigger] plan.1@[j]) by {
        assert(among(wanted@, j, wanted@[j]));
    }
}

proof fn with_views_is_a_filter(panes: Seq<u64>, mounted: Seq<u64>)
    ensures
        with_views(panes, mounted) == panes.filter(|pane: u64| mounted.contains(pane)),
    decreases panes.len(),
{
    reveal(Seq::filter);
    if panes.len() > 0 {
        with_views_is_a_filter(panes.drop_last(), mounted);
        let pane = panes.last();
        assert(mounted.contains(pane) <==> among(mounted, mounted.len() as int, pane));
    }
}

/// Every pane whose view is mounted is told of what befalls its window, in the
/// panes' order, and no other; the window closes only when it was asked to.
pub proof fn every_view_in_a_window_is_told(
    event: WindowEvent,
    panes: &Vec<u64>,
    mounted: &Vec<u64>,
    following: Following,
)
    requires
        call_ensures(observe_window, (event, panes, mounted), following),
    ensures
        following.told@ == panes@.filter(|pane: u64| mounted@.contains(pane)),
        following.closes <==> event is CloseRequested,
{
    with_views_is_a_filter(panes@, mounted@);
}

/// What the keys of a window reach, by where it is: the desk's own keys reach
/// the console on the desk with nothing over it, and the close chord a pane
/// there, where it has one. The chord closes every other window but a console
/// that could not be opened again, which it minimizes.
pub proof fn the_close_chord_never_quits(
    kind: WindowKind,
    in_launcher: bool,
    overlay: Option<Overlay>,
    panes: usize,
    focused: usize,
    mac: bool,
    reached: bool,
    pane: Option<usize>,
    done: ByKey,
)
    requires
        call_ensures(desk_keys, (kind, in_launcher, overlay), reached),
        call_ensures(command_w_pane, (reached, panes, focused), pane),
        call_ensures(close_by_key, (kind, mac), done),
    ensures
        reached <==> kind is Console && !in_launcher && overlay is None,
        pane is Some <==> kind is Console && !in_launcher && overlay is None && panes > 0,
        pane is Some ==> pane == Some(focused),
        done is Minimize <==> kind is Console && !mac,
        done is Close <==> kind is View || mac,
{
}

/// What the model hears of a window names it and says whether it is active.
pub proof fn activation_names_its_window(key: u64, active: bool, message: Activation)
    requires
        call_ensures(activation, (key, active), message),
    ensures
        active ==> message == Activation::Focused(key),
        !active ==> message == Activation::Unfocused(key),
{
}

/// A program's own window is always the desk's; the console draws the step the
/// app is at, until that is the desk.
pub proof fn the_console_draws_the_step(kind: WindowKind, stage: Stage, drawn: Screen)
    requires
        call_ensures(screen, (kind, stage), drawn),
    ensures
        kind is View ==> drawn is Console,
        kind is Console ==> (drawn is Console <==> stage is Desk),
        drawn matches Screen::Step(at) ==> at == stage,
{
}

} // verus!
