//! Opening a window, and what follows when it does or does not open.

use vstd::prelude::*;

use crate::shell::WindowKind;
use crate::text::joined;

verus! {

/// The size a window opens at.
#[derive(Clone, Copy, Debug, PartialEq, Eq, Structural)]
pub enum Extent {
    /// The launcher's fixed size.
    Launcher,
    /// A window's size before the person resizes it.
    Window,
}

/// Where a window opens.
#[derive(Clone, Copy, Debug)]
pub enum Place<B> {
    /// In these bounds.
    At(B),
    /// Centred on the display, at its own size.
    Centred,
}

/// The least width and height a window is resized to, in points: one window
/// serves the launcher and the desk, so it resizes.
pub const LEAST_SIZE: (u32, u32) = (720, 480);

/// What the platform knows the app by.
pub const APP_ID: &'static str = "dev.ducktape.app";

/// A window about to open.
#[derive(Debug)]
pub struct Opening<B> {
    pub title: String,
    pub extent: Extent,
    pub place: Place<B>,
    /// Whether its title bar is drawn through.
    pub transparent: bool,
}

/// Opens a window: the console under the app's name, at the launcher's size
/// while the app is in it, and a program's window under the program's
/// (`label`). It opens in the bounds it is given, and centred without any.
pub fn open_window<B>(
    kind: WindowKind,
    label: &str,
    at: Option<B>,
    in_launcher: bool,
    mac: bool,
) -> (opening: Opening<B>)
    ensures
        opening.title@ == (if kind == WindowKind::Console {
            "Ducktape"@
        } else {
            label@
        }),
        opening.extent == (if kind == WindowKind::Console && in_launcher {
            Extent::Launcher
        } else {
            Extent::Window
        }),
        opening.place == (match at {
            Some(bounds) => Place::At(bounds),
            None => Place::Centred,
        }),
        opening.transparent == mac,
{
    let console = kind == WindowKind::Console;
    let title = if console {
        "Ducktape".to_owned()
    } else {
        label.to_owned()
    };
    let extent = if console && in_launcher {
        Extent::Launcher
    } else {
        Extent::Window
    };
    let place = match at {
        Some(bounds) => Place::At(bounds),
        None => Place::Centred,
    };
    Opening { title, extent, place, transparent: mac }
}

/// One thing that follows an attempt to open a window.
#[derive(Debug)]
pub enum Then {
    /// The shell keeps the window, and its view with it, under this key.
    Keep { key: u64 },
    /// Whoever asked for the window is told its key.
    Reply { key: u64 },
    /// The pane on its way to the window goes back to the desk.
    PopIn { key: u64 },
    /// The window counts as closed.
    Closed { key: u64 },
    /// The app says this.
    Say { error: String },
}

/// What follows, in order, an attempt to open the window `key` that ended with
/// `failed`: a window that opened is kept, and then whoever asked is told; for
/// one that did not, the pane on its way there goes back to the desk, the
/// window counts as closed, and the app says why. Nobody is told a key then.
pub fn opened(key: u64, failed: Option<String>) -> (then: Vec<Then>)
    ensures
        match failed {
            None => then@ == seq![Then::Keep { key }, Then::Reply { key }],
            Some(error) => {
                &&& then@.len() == 3
                &&& then@[0] == Then::PopIn { key }
                &&& then@[1] == Then::Closed { key }
                &&& then@[2] matches Then::Say { error: said } && said@
                    == "The window could not be opened: "@ + error@
            },
        },
{
    let mut then: Vec<Then> = Vec::new();
    match failed {
        None => {
            then.push(Then::Keep { key });
            then.push(Then::Reply { key });
        },
        Some(error) => {
            then.push(Then::PopIn { key });
            then.push(Then::Closed { key });
            then.push(
                Then::Say { error: joined("The window could not be opened: ", error.as_str()) },
            );
        },
    }
    then
}

// ---------- what these come to ----------
/// A window opens as its kind says: the console under the app's name, at the
/// launcher's size only in the launcher; a program's under the program's, at a
/// window's. Bounds given are the bounds it opens in.
pub proof fn a_window_opens_as_its_kind_says<B>(
    kind: WindowKind,
    label: &str,
    at: Option<B>,
    in_launcher: bool,
    mac: bool,
    opening: Opening<B>,
)
    requires
        call_ensures(open_window::<B>, (kind, label, at, in_launcher, mac), opening),
    ensures
        kind is Console ==> opening.title@ == "Ducktape"@,
        kind is View ==> opening.title@ == label@,
        opening.extent is Launcher <==> kind is Console && in_launcher,
        at matches Some(bounds) ==> opening.place == Place::At(bounds),
        at is None ==> opening.place is Centred,
        opening.transparent <==> mac,
{
}

/// Whoever asked for a window is told its key exactly when the shell kept it,
/// and after that; a window that did not open is closed, its pane goes back
/// before that, and why is said last. All of it is of that window.
pub proof fn a_window_that_opened_is_kept_before_it_is_told_of(
    key: u64,
    failed: Option<String>,
    then: Vec<Then>,
)
    requires
        call_ensures(opened, (key, failed), then),
    ensures
        failed is None ==> then@.len() == 2 && then@[0] == (Then::Keep { key }) && then@[1] == (
        Then::Reply { key }),
        failed is Some ==> then@.len() == 3 && then@[0] == (Then::PopIn { key }) && then@[1] == (
        Then::Closed { key }) && then@[2] is Say,
        failed is Some ==> then@[2]->error@ == "The window could not be opened: "@ + failed->0@,
{
}

} // verus!
