//! The bell's panel: the notification centre's rows.

use vstd::prelude::*;

use crate::text::chars_of;
use crate::text::decimal_of;
use crate::text::joined;
use crate::text::joined3;

verus! {

// ---------- the time of day ----------
/// A day, in seconds.
pub const DAY: i64 = 86_400;

/// Unix seconds at the start of the local day `wall` falls in. Clocks run
/// `offset` seconds ahead of UTC at `wall`, and ran `offset_then` ahead when
/// the day began: not the same on a day they are changed.
pub open spec fn midnight(wall: int, offset: int, offset_then: int) -> int {
    (wall + offset) / 86_400 * 86_400 - offset_then
}

/// Whether `n` is a time a clock here can read.
pub open spec fn tells(n: int) -> bool {
    i64::MIN <= n <= i64::MAX
}

/// Whether the day `wall` falls in can be told with these offsets.
pub open spec fn tells_day(wall: int, offset: int, offset_then: int) -> bool {
    &&& tells(wall + offset)
    &&& tells((wall + offset) / 86_400 * 86_400)
    &&& tells(midnight(wall, offset, offset_then))
}

/// Unix seconds at the start of the local day `wall` falls in, with the offset
/// from UTC in force at `wall` and the one in force at that start.
pub fn local_midnight(wall: i64, offset: i64, offset_then: i64) -> (start: i64)
    requires
        tells_day(wall as int, offset as int, offset_then as int),
    ensures
        start == (wall + offset) / 86_400 * 86_400 - offset_then,
        (start + offset_then) % 86_400 == 0,
{
    let days: i64 = (wall + offset).checked_div_euclid(DAY).unwrap();
    days * DAY - offset_then
}

/// The local clock reads midnight at the start of the day a time falls in, and
/// the day of that start is the time's own. While clocks are not changed, the
/// day starts no later than the time, and less than a day before it.
pub proof fn a_day_starts_at_its_midnight(wall: int, offset: int, offset_then: int)
    ensures
        ({
            let start = midnight(wall, offset, offset_then);
            &&& (start + offset_then) % 86_400 == 0
            &&& (start + offset_then) / 86_400 == (wall + offset) / 86_400
            &&& midnight(start, offset_then, offset_then) == start
            &&& start + offset_then <= wall + offset < start + offset_then + 86_400
            &&& offset == offset_then ==> start <= wall < start + 86_400
        }),
{
}

/// The offset a day started with is the one in force at the midnight that the
/// offset of now gives: so where clocks (`clock` being their offset at each
/// time) change once, at `change`, by less than a day, and the day's midnight
/// (`start`) is read once only.
pub proof fn the_offset_of_now_finds_the_days_own(
    clock: spec_fn(int) -> int,
    wall: int,
    start: int,
    change: int,
)
    requires
        start <= wall,
        start < change,
        start + clock(start) == (wall + clock(wall)) / 86_400 * 86_400,
        forall|t: int| start - 86_400 < t < change ==> #[trigger] clock(t) == clock(start),
        forall|t: int| change <= t <= wall ==> #[trigger] clock(t) == clock(wall),
        -86_400 < clock(wall) - clock(start) < 86_400,
        change + clock(wall) > start + clock(start),
    ensures
        clock(midnight(wall, clock(wall), clock(wall))) == clock(start),
        midnight(wall, clock(wall), clock(midnight(wall, clock(wall), clock(wall)))) == start,
{
}

/// How long ago `at` was: "now" for less than a minute, minutes for less than
/// an hour, hours from the start of `today` on, "Yesterday" for the day before
/// it, and days before that.
pub open spec fn ago_text(at: int, now: int, today: int) -> Seq<char> {
    let seconds = if now - at > 0 {
        now - at
    } else {
        0
    };
    if seconds < 60 {
        "now"@
    } else if seconds < 3_600 {
        crate::text::decimal((seconds / 60) as nat) + "m"@
    } else if at >= today {
        crate::text::decimal((seconds / 3_600) as nat) + "h"@
    } else if at >= today - 86_400 {
        "Yesterday"@
    } else {
        crate::text::decimal((seconds / 86_400) as nat) + "d"@
    }
}

/// "now", "14m", "2h", "Yesterday", "3d".
pub fn ago(at: i64, now: i64, offset: i64, offset_then: i64) -> (text: String)
    requires
        tells(now - at),
        tells_day(now as int, offset as int, offset_then as int),
        tells(midnight(now as int, offset as int, offset_then as int) - 86_400),
    ensures
        text@ == ago_text(
            at as int,
            now as int,
            midnight(now as int, offset as int, offset_then as int),
        ),
{
    let today: i64 = local_midnight(now, offset, offset_then);
    ago_today(at, now, today)
}

fn ago_today(at: i64, now: i64, today: i64) -> (text: String)
    requires
        tells(now - at),
        tells(today - 86_400),
    ensures
        text@ == ago_text(at as int, now as int, today as int),
{
    let past: i64 = now - at;
    let seconds: u64 = if past > 0 {
        past as u64
    } else {
        0
    };
    if seconds < 60 {
        return "now".to_owned();
    }
    if seconds < 3_600 {
        return joined(decimal_of(seconds / 60).as_str(), "m");
    }
    if at >= today {
        return joined(decimal_of(seconds / 3_600).as_str(), "h");
    }
    if at >= today - DAY {
        return "Yesterday".to_owned();
    }
    joined(decimal_of(seconds / 86_400).as_str(), "d")
}

// ---------- the panel ----------
/// One notification: `at` is when, `count` how many it stands for.
#[derive(Debug)]
pub struct Entry {
    pub id: u64,
    pub at: i64,
    pub title: String,
    pub body: String,
    pub module: String,
    pub tag: String,
    pub read: bool,
    pub count: u64,
}

/// A heading over rows.
#[derive(Clone, Copy, Debug, PartialEq, Eq, Structural)]
pub enum Section {
    Today,
    Earlier,
}

/// What a heading reads as.
pub fn heading_text(section: Section) -> (text: String)
    ensures
        text@ == (match section {
            Section::Today => "Today"@,
            Section::Earlier => "Earlier"@,
        }),
{
    match section {
        Section::Today => "Today".to_owned(),
        Section::Earlier => "Earlier".to_owned(),
    }
}

/// What a click in the panel tells the model.
#[derive(Clone, Copy, Debug, PartialEq, Eq, Structural)]
pub enum Message {
    MarkAllRead,
    Open(u64),
    ClearRead,
    Settings,
}

/// A word to click in the panel's header or footer.
#[derive(Debug)]
pub struct Link {
    pub id: String,
    pub text: String,
    pub message: Message,
}

/// What the panel says where there is nothing to show.
#[derive(Debug)]
pub struct CaughtUp {
    pub title: String,
    pub hint: String,
}

/// A row of the panel.
#[derive(Debug)]
pub struct Row {
    pub id: String,
    pub message: Message,
    /// The heading it stands first under.
    pub heading: Option<Section>,
    /// What it reads as.
    pub said: String,
    /// The letter in its disc.
    pub initial: String,
    pub unread: bool,
    pub title: String,
    /// How many it stands for, when more than one.
    pub count: Option<String>,
    pub ago: String,
    /// Its body on one line, when it has one.
    pub body: Option<String>,
    /// Who sent it.
    pub source: String,
}

/// The panel.
#[derive(Debug)]
pub struct Panel {
    pub unread: String,
    pub mark_all: Option<Link>,
    pub rows: Vec<Row>,
    pub caught_up: Option<CaughtUp>,
    pub clear_read: Option<Link>,
    pub settings: Link,
}

/// What `char::to_uppercase` makes of a character.
pub uninterp spec fn capitals(c: char) -> Seq<char>;

/// `char::to_uppercase`: the characters of a character's capital. An ASCII
/// character has its ASCII capital, and one without a capital is its own; the
/// rest of Unicode's mapping goes unsaid.
#[verifier::external_body]
fn uppercase(c: char) -> (text: String)
    ensures
        text@ == capitals(c),
        c as u32 <= 127 ==> text@ == seq![crate::text::upper(c)],
{
    c.to_uppercase().to_string()
}

/// The heading an entry of `at` goes under.
pub open spec fn section_of(at: int, midnight: int) -> Section {
    if at >= midnight {
        Section::Today
    } else {
        Section::Earlier
    }
}

/// The heading the row at `nth` stands first under: its own, unless the row
/// above it already stands under that.
pub open spec fn heading_at(entries: Seq<Entry>, nth: int, midnight: int) -> Option<Section> {
    let own = section_of(entries[nth].at as int, midnight);
    if nth > 0 && section_of(entries[nth - 1].at as int, midnight) == own {
        None
    } else {
        Some(own)
    }
}

/// `text` on one line.
pub open spec fn on_one_line(text: Seq<char>) -> Seq<char> {
    text.map_values(
        |c: char|
            if c == '\n' {
                ' '
            } else {
                c
            },
    )
}

/// Whether `row` shows the entry at `nth`, today having started at `today`.
pub open spec fn shows(entries: Seq<Entry>, nth: int, now: int, today: int, row: Row) -> bool {
    let entry = entries[nth];
    &&& row.id@ == "notif/"@ + crate::text::decimal(entry.id as nat)
    &&& row.message == Message::Open(entry.id)
    &&& row.heading == heading_at(entries, nth, today)
    &&& row.said@ == (if entry.read {
        ""@
    } else {
        "Unread. "@
    }) + entry.title@ + ": "@ + entry.body@
    &&& row.initial@ == (if entry.title@.len() == 0 {
        Seq::empty()
    } else {
        capitals(entry.title@[0])
    })
    &&& row.unread == !entry.read
    &&& row.title@ == entry.title@
    &&& match row.count {
        Some(count) => entry.count > 1 && count@ == crate::text::decimal(entry.count as nat),
        None => entry.count <= 1,
    }
    &&& row.ago@ == ago_text(entry.at as int, now, today)
    &&& match row.body {
        Some(body) => entry.body@.len() > 0 && body@ == on_one_line(entry.body@),
        None => entry.body@.len() == 0,
    }
    &&& row.source@ == (if entry.tag@.len() == 0 {
        entry.module@
    } else {
        entry.module@ + " · "@ + entry.tag@
    })
}

/// Newest first, the headings are Today's, if any, and then Earlier's: once a
/// row is from before today, so is every row under it.
pub proof fn newest_first_reads_today_then_earlier(entries: Seq<Entry>, midnight: int)
    requires
        forall|i: int, j: int|
            0 <= i < j < entries.len() ==> (#[trigger] entries[i]).at >= (#[trigger] entries[j]).at,
    ensures
        forall|nth: int|
            0 < nth < entries.len() ==> #[trigger] heading_at(entries, nth, midnight) != Some(
                Section::Today,
            ),
        forall|i: int, j: int|
            0 <= i < j < entries.len() && #[trigger] heading_at(entries, i, midnight) == Some(
                Section::Earlier,
            ) ==> #[trigger] heading_at(entries, j, midnight) is None,
{
    assert forall|nth: int| 0 < nth < entries.len() implies #[trigger] heading_at(
        entries,
        nth,
        midnight,
    ) != Some(Section::Today) by {
        assert(entries[nth - 1].at >= entries[nth].at);
    }
    assert forall|i: int, j: int|
        0 <= i < j < entries.len() && #[trigger] heading_at(entries, i, midnight) == Some(
            Section::Earlier,
        ) implies #[trigger] heading_at(entries, j, midnight) is None by {
        assert(entries[i].at >= entries[j].at);
        if i < j - 1 {
            assert(entries[i].at >= entries[j - 1].at);
        }
    }
}

fn one_line(text: &str) -> (line: String)
    ensures
        line@ == on_one_line(text@),
{
    let mut line = String::new();
    for c in it: text.chars()
        invariant
            it.seq() == text@,
            line@ == on_one_line(it.seq().take(it.index() as int)),
    {
        if c == '\n' {
            line.push(' ');
        } else {
            line.push(c);
        }
        assert(line@ =~= on_one_line(it.seq().take(it.index() as int + 1)));
    }
    assert(text@.take(text@.len() as int) =~= text@);
    line
}

fn row_of(entries: &Vec<Entry>, nth: usize, now: i64, today: i64) -> (row: Row)
    requires
        nth < entries@.len(),
        tells(now - entries@[nth as int].at),
        tells(today - 86_400),
    ensures
        shows(entries@, nth as int, now as int, today as int, row),
{
    let entry = &entries[nth];
    let own = if entry.at >= today {
        Section::Today
    } else {
        Section::Earlier
    };
    let heading = if nth > 0 && (entries[nth - 1].at >= today) == (entry.at >= today) {
        None
    } else {
        Some(own)
    };
    let mut said = if entry.read {
        "".to_owned()
    } else {
        "Unread. ".to_owned()
    };
    said.append(entry.title.as_str());
    said.append(": ");
    said.append(entry.body.as_str());
    let letters = chars_of(entry.title.as_str());
    let initial = if letters.len() == 0 {
        String::new()
    } else {
        uppercase(letters[0])
    };
    let count = if entry.count > 1 {
        Some(decimal_of(entry.count))
    } else {
        None
    };
    let body_chars = chars_of(entry.body.as_str());
    let body = if body_chars.len() == 0 {
        None
    } else {
        Some(one_line(entry.body.as_str()))
    };
    let tag_chars = chars_of(entry.tag.as_str());
    let source = if tag_chars.len() == 0 {
        entry.module.clone()
    } else {
        joined3(entry.module.as_str(), " · ", entry.tag.as_str())
    };
    Row {
        id: joined("notif/", decimal_of(entry.id).as_str()),
        message: Message::Open(entry.id),
        heading,
        said,
        initial,
        unread: !entry.read,
        title: entry.title.clone(),
        count,
        ago: ago_today(entry.at, now, today),
        body,
        source,
    }
}

/// Whether `link` is the word with this id, this text and this message.
pub open spec fn is_link(link: Link, id: Seq<char>, text: Seq<char>, message: Message) -> bool {
    &&& link.id@ == id
    &&& link.text@ == text
    &&& link.message == message
}

fn link_of(id: &str, text: &str, message: Message) -> (link: Link)
    ensures
        is_link(link, id@, text@, message),
{
    Link { id: id.to_owned(), text: text.to_owned(), message }
}

/// Whether any of `entries` was read.
pub open spec fn any_read(entries: Seq<Entry>) -> bool {
    exists|i: int| 0 <= i < entries.len() && (#[trigger] entries[i]).read
}

/// The panel over `entries`, newest first, `unread` of them unread.
pub fn notifications(
    entries: &Vec<Entry>,
    unread: u64,
    now: i64,
    offset: i64,
    offset_then: i64,
) -> (panel: Panel)
    requires
        forall|i: int| 0 <= i < entries@.len() ==> tells(now - (#[trigger] entries@[i]).at),
        tells_day(now as int, offset as int, offset_then as int),
        tells(midnight(now as int, offset as int, offset_then as int) - 86_400),
    ensures
        panel.unread@ == crate::text::decimal(unread as nat) + " unread"@,
        match panel.mark_all {
            Some(link) => unread > 0 && is_link(
                link,
                "notif-mark-all"@,
                "Mark all read"@,
                Message::MarkAllRead,
            ),
            None => unread == 0,
        },
        panel.rows@.len() == entries@.len(),
        forall|i: int|
            0 <= i < entries@.len() ==> shows(
                entries@,
                i,
                now as int,
                midnight(now as int, offset as int, offset_then as int),
                #[trigger] panel.rows@[i],
            ),
        match panel.caught_up {
            Some(words) => entries@.len() == 0 && words.title@ == "You\u{2019}re all caught up"@
                && words.hint@ == "Mentions and messages land here."@,
            None => entries@.len() > 0,
        },
        match panel.clear_read {
            Some(link) => any_read(entries@) && is_link(
                link,
                "notif-clear-read"@,
                "Clear read"@,
                Message::ClearRead,
            ),
            None => !any_read(entries@),
        },
        is_link(
            panel.settings,
            "notif-settings"@,
            "Notification settings"@,
            Message::Settings,
        ),
{
    let today: i64 = local_midnight(now, offset, offset_then);
    let mut rows: Vec<Row> = Vec::new();
    let mut clear_read = false;
    let mut nth: usize = 0;
    while nth < entries.len()
        invariant
            forall|i: int| 0 <= i < entries@.len() ==> tells(now - (#[trigger] entries@[i]).at),
            tells(today - 86_400),
            nth <= entries@.len(),
            rows@.len() == nth,
            forall|i: int|
                0 <= i < nth ==> shows(
                    entries@,
                    i,
                    now as int,
                    today as int,
                    #[trigger] rows@[i],
                ),
            clear_read == exists|i: int| 0 <= i < nth && (#[trigger] entries@[i]).read,
        decreases entries@.len() - nth,
    {
        rows.push(row_of(entries, nth, now, today));
        if entries[nth].read {
            clear_read = true;
        }
        nth += 1;
    }
    Panel {
        unread: joined(decimal_of(unread).as_str(), " unread"),
        mark_all: if unread > 0 {
            Some(link_of("notif-mark-all", "Mark all read", Message::MarkAllRead))
        } else {
            None
        },
        rows,
        caught_up: if entries.len() == 0 {
            Some(
                CaughtUp {
                    title: "You\u{2019}re all caught up".to_owned(),
                    hint: "Mentions and messages land here.".to_owned(),
                },
            )
        } else {
            None
        },
        clear_read: if clear_read {
            Some(link_of("notif-clear-read", "Clear read", Message::ClearRead))
        } else {
            None
        },
        settings: link_of("notif-settings", "Notification settings", Message::Settings),
    }
}

// ---------- what these come to ----------
/// How long ago something was, by whole minutes, hours and days: `now` for less
/// than a minute and for what is still to come; whole minutes for less than an
/// hour, across midnight too; whole hours for the rest of today; `Yesterday`
/// for the day before; and whole days for what is older.
pub proof fn what_was_is_told_in_whole_units(
    at: i64,
    now: i64,
    offset: i64,
    offset_then: i64,
    text: String,
    whole: nat,
)
    requires
        call_ensures(ago, (at, now, offset, offset_then), text),
    ensures
        ({
            let today = midnight(now as int, offset as int, offset_then as int);
            &&& now - at < 60 ==> text@ == "now"@
            &&& 60 <= now - at < 3_600 && whole * 60 <= now - at < whole * 60 + 60 ==> text@
                == crate::text::decimal(whole) + "m"@
            &&& now - at >= 3_600 && at >= today && whole * 3_600 <= now - at < whole * 3_600
                + 3_600 ==> text@ == crate::text::decimal(whole) + "h"@
            &&& now - at >= 3_600 && today - 86_400 <= at < today ==> text@ == "Yesterday"@
            &&& now - at >= 3_600 && at < today - 86_400 && whole * 86_400 <= now - at < whole
                * 86_400 + 86_400 ==> text@ == crate::text::decimal(whole) + "d"@
        }),
{
    let seconds = now - at;
    if whole * 60 <= seconds < whole * 60 + 60 {
        assert(seconds / 60 == whole);
    }
    if whole * 3_600 <= seconds < whole * 3_600 + 3_600 {
        assert(seconds / 3_600 == whole);
    }
    if whole * 86_400 <= seconds < whole * 86_400 + 86_400 {
        assert(seconds / 86_400 == whole);
    }
}

/// A panel shows every entry, in order: what a row opens, says and counts is
/// its entry's own.
pub proof fn a_row_is_of_its_entry(
    entries: &Vec<Entry>,
    unread: u64,
    now: i64,
    offset: i64,
    offset_then: i64,
    panel: Panel,
    nth: int,
)
    requires
        call_ensures(notifications, (entries, unread, now, offset, offset_then), panel),
        0 <= nth < entries@.len(),
    ensures
        panel.rows@.len() == entries@.len(),
        ({
            let row = panel.rows@[nth];
            let entry = entries@[nth];
            &&& row.id@ == "notif/"@ + crate::text::decimal(entry.id as nat)
            &&& row.message == Message::Open(entry.id)
            &&& row.unread <==> !entry.read
            &&& row.title@ == entry.title@
            &&& entry.read ==> row.said@ == entry.title@ + ": "@ + entry.body@
            &&& !entry.read ==> row.said@ == "Unread. "@ + entry.title@ + ": "@ + entry.body@
            &&& entry.title@.len() == 0 ==> row.initial@.len() == 0
            &&& entry.title@.len() > 0 ==> row.initial@ == capitals(entry.title@[0])
            &&& row.count is Some <==> entry.count > 1
            &&& row.count is Some ==> row.count->0@ == crate::text::decimal(entry.count as nat)
            &&& row.body is Some <==> entry.body@.len() > 0
            &&& entry.tag@.len() == 0 ==> row.source@ == entry.module@
            &&& entry.tag@.len() > 0 ==> row.source@ == entry.module@ + " · "@ + entry.tag@
        }),
{
    let today = midnight(now as int, offset as int, offset_then as int);
    assert(shows(entries@, nth, now as int, today, panel.rows@[nth]));
    reveal_strlit("");
    let entry = entries@[nth];
    assert(""@ + entry.title@ =~= entry.title@);
}

/// A body shows on one line: as long as it is, a space for each line's end and
/// every other character as it stands.
pub proof fn a_body_shows_on_one_line(
    entries: &Vec<Entry>,
    unread: u64,
    now: i64,
    offset: i64,
    offset_then: i64,
    panel: Panel,
    nth: int,
    place: int,
)
    requires
        call_ensures(notifications, (entries, unread, now, offset, offset_then), panel),
        0 <= nth < entries@.len(),
        0 <= place < entries@[nth].body@.len(),
    ensures
        panel.rows@[nth].body matches Some(line) && line@.len() == entries@[nth].body@.len()
            && line@[place] == (if entries@[nth].body@[place] == '\u{a}' {
            ' '
        } else {
            entries@[nth].body@[place]
        }),
{
    let today = midnight(now as int, offset as int, offset_then as int);
    assert(shows(entries@, nth, now as int, today, panel.rows@[nth]));
}

/// A heading stands over the first row and wherever today gives way to what is
/// earlier, or the other way about; it is Today exactly for what came since
/// midnight. How long ago a row says is as long ago as its entry was.
pub proof fn a_heading_stands_where_the_day_changes(
    entries: &Vec<Entry>,
    unread: u64,
    now: i64,
    offset: i64,
    offset_then: i64,
    panel: Panel,
    nth: int,
    text: String,
)
    requires
        call_ensures(notifications, (entries, unread, now, offset, offset_then), panel),
        0 <= nth < entries@.len(),
        call_ensures(ago, (entries@[nth].at, now, offset, offset_then), text),
    ensures
        ({
            let today = midnight(now as int, offset as int, offset_then as int);
            let row = panel.rows@[nth];
            &&& row.heading is Some <==> nth == 0 || (entries@[nth - 1].at < today
                <==> entries@[nth].at >= today)
            &&& row.heading == Some(Section::Today) ==> entries@[nth].at >= today
            &&& row.heading == Some(Section::Earlier) ==> entries@[nth].at < today
            &&& row.ago@ == text@
        }),
{
    let today = midnight(now as int, offset as int, offset_then as int);
    assert(shows(entries@, nth, now as int, today, panel.rows@[nth]));
}

/// What the panel offers, by what there is: marking all read while any is
/// unread, clearing what was read while any was, the settings always; and it
/// says that nothing is left where nothing is.
pub proof fn the_panel_offers_what_there_is_to_do(
    entries: &Vec<Entry>,
    unread: u64,
    now: i64,
    offset: i64,
    offset_then: i64,
    panel: Panel,
)
    requires
        call_ensures(notifications, (entries, unread, now, offset, offset_then), panel),
    ensures
        panel.unread@ == crate::text::decimal(unread as nat) + " unread"@,
        panel.mark_all is Some <==> unread > 0,
        panel.mark_all is Some ==> panel.mark_all->0.message is MarkAllRead && panel.mark_all->0.id@
            == "notif-mark-all"@ && panel.mark_all->0.text@ == "Mark all read"@,
        panel.clear_read is Some <==> exists|i: int|
            0 <= i < entries@.len() && (#[trigger] entries@[i]).read,
        panel.clear_read is Some ==> panel.clear_read->0.message is ClearRead
            && panel.clear_read->0.id@ == "notif-clear-read"@ && panel.clear_read->0.text@
            == "Clear read"@,
        panel.settings.message is Settings && panel.settings.id@ == "notif-settings"@
            && panel.settings.text@ == "Notification settings"@,
        panel.caught_up is Some <==> panel.rows@.len() == 0,
        panel.caught_up is Some ==> panel.caught_up->0.title@ == "You\u{2019}re all caught up"@
            && panel.caught_up->0.hint@ == "Mentions and messages land here."@,
{
}

/// A heading reads as the section it is over.
pub proof fn a_heading_reads_as_its_section(section: Section, text: String)
    requires
        call_ensures(heading_text, (section,), text),
    ensures
        section is Today ==> text@ == "Today"@,
        section is Earlier ==> text@ == "Earlier"@,
{
}

} // verus!
