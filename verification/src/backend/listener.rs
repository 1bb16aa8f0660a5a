//! The loopback listener: one-shot, on an ephemeral port. The port is no
//! secret, so the callback path carries 32 random bytes and only a POST to
//! that path ends the wait.

use vstd::prelude::*;
use vstd::utf8::*;

use crate::backend::form::form_field;
use crate::backend::passkey::Outcome;
use crate::backend::passkey::key_in;
use crate::backend::passkey::parse_result;
use crate::outside::base64_encode;
use crate::outside::random_bytes;
use crate::text::chars_of;
use crate::text::decimal_of;
use crate::text::is_white_space;
use crate::text::joined;
use crate::text::joined3;
use crate::text::same_text;
use crate::text::text_of;

verus! {

// ---------- where it listens ----------
/// The path with `id` in it that the page calls back at.
pub open spec fn path_with(id: Seq<u8>) -> Seq<char> {
    "/cb/"@ + crate::outside::base64(id)
}

/// The path with `id` in it that the page calls back at.
pub fn callback_path_with(id: &[u8; 32]) -> (path: String)
    ensures
        path@ == path_with(id@),
{
    joined("/cb/", base64_encode(id.as_slice()).as_str())
}

/// A fresh path to be called back at: its 32 bytes are drawn at random.
pub fn callback_path() -> (path: String)
    ensures
        exists|id: Seq<u8>| id.len() == 32 && path@ == #[trigger] path_with(id),
{
    let id = random_bytes();
    let path = callback_path_with(&id);
    assert(id@.len() == 32 && path@ == path_with(id@));
    path
}

/// The address the page answers at.
pub fn callback_url(port: u16, path: &str) -> (url: String)
    ensures
        url@ == "http://127.0.0.1:"@ + crate::text::decimal(port as nat) + path@,
{
    joined3("http://127.0.0.1:", decimal_of(port as u64).as_str(), path)
}

// ---------- words ----------
/// Where the first character that is not white space stands, from `at` on.
pub open spec fn word_start(text: Seq<char>, at: int) -> int
    decreases text.len() - at,
{
    if at >= text.len() {
        text.len() as int
    } else if crate::text::white_space(text[at]) {
        word_start(text, at + 1)
    } else {
        at
    }
}

/// Where the first white space stands, from `at` on.
pub open spec fn word_end(text: Seq<char>, at: int) -> int
    decreases text.len() - at,
{
    if at >= text.len() {
        text.len() as int
    } else if crate::text::white_space(text[at]) {
        at
    } else {
        word_end(text, at + 1)
    }
}

/// The word that begins at or after `at`, and nothing where none does.
pub open spec fn word_at(text: Seq<char>, at: int) -> Seq<char> {
    text.subrange(word_start(text, at), word_end(text, word_start(text, at)))
}

/// `text` without the white space it ends with.
pub open spec fn trim_end(text: Seq<char>) -> Seq<char>
    decreases text.len(),
{
    if text.len() > 0 && crate::text::white_space(text.last()) {
        trim_end(text.drop_last())
    } else {
        text
    }
}

/// `text` without the white space around it.
pub open spec fn trim(text: Seq<char>) -> Seq<char> {
    trim_end(text.skip(word_start(text, 0)))
}

fn start_of_word(text: &Vec<char>, at: usize) -> (place: usize)
    requires
        at <= text@.len(),
    ensures
        place == word_start(text@, at as int),
        at <= place <= text@.len(),
{
    let mut place: usize = at;
    while place < text.len() && is_white_space(text[place])
        invariant
            at <= place <= text@.len(),
            word_start(text@, at as int) == word_start(text@, place as int),
        decreases text@.len() - place,
    {
        place += 1;
    }
    place
}

fn end_of_word(text: &Vec<char>, at: usize) -> (place: usize)
    requires
        at <= text@.len(),
    ensures
        place == word_end(text@, at as int),
        at <= place <= text@.len(),
{
    let mut place: usize = at;
    while place < text.len() && !is_white_space(text[place])
        invariant
            at <= place <= text@.len(),
            word_end(text@, at as int) == word_end(text@, place as int),
        decreases text@.len() - place,
    {
        place += 1;
    }
    place
}

fn trimmed(text: &Vec<char>, from: usize) -> (part: Vec<char>)
    requires
        from <= text@.len(),
    ensures
        part@ == trim(text@.skip(from as int)),
{
    let ghost whole = text@.skip(from as int);
    let start = start_of_word(text, from);
    proof {
        starts_shift(text@, from as int, from as int);
    }
    let mut part: Vec<char> = Vec::new();
    let mut at: usize = start;
    while at < text.len()
        invariant
            from <= start <= at <= text@.len(),
            part@ == text@.subrange(start as int, at as int),
        decreases text@.len() - at,
    {
        part.push(text[at]);
        assert(part@ =~= text@.subrange(start as int, at + 1));
        at += 1;
    }
    assert(part@ =~= whole.skip(word_start(whole, 0)));
    while part.len() > 0 && is_white_space(part[part.len() - 1])
        invariant
            trim(whole) == trim_end(part@),
        decreases part@.len(),
    {
        let ghost before = part@;
        let _ = part.pop();
        assert(part@ =~= before.drop_last());
    }
    part
}

/// `text` without the white space around it.
pub fn trimmed_text(text: &str) -> (inner: String)
    ensures
        inner@ == trim(text@),
{
    let chars = chars_of(text);
    assert(chars@.skip(0) =~= text@);
    text_of(trimmed(&chars, 0).as_slice())
}

proof fn starts_shift(text: Seq<char>, from: int, at: int)
    requires
        0 <= from <= at <= text.len(),
    ensures
        word_start(text.skip(from), at - from) == word_start(text, at) - from,
    decreases text.len() - at,
{
    if at < text.len() {
        assert(text.skip(from)[at - from] == text[at]);
        starts_shift(text, from, at + 1);
    }
}

// ---------- the length of a body ----------
/// The number decimal digits write.
pub open spec fn digits_value(digits: Seq<char>) -> nat
    decreases digits.len(),
{
    if digits.len() == 0 {
        0
    } else {
        10 * digits_value(digits.drop_last()) + (digits.last() as int - 48) as nat
    }
}

/// Whether `text` is decimal digits, one or more.
pub open spec fn are_digits(text: Seq<char>) -> bool {
    text.len() > 0 && forall|i: int| 0 <= i < text.len() ==> '0' <= #[trigger] text[i] <= '9'
}

/// The digits of a number written with a plus sign or without.
pub open spec fn unsigned_digits(text: Seq<char>) -> Seq<char> {
    if text.len() > 0 && text[0] == '+' {
        text.skip(1)
    } else {
        text
    }
}

/// The number `text` writes, when it writes one that a `usize` holds.
pub open spec fn number_in(text: Seq<char>) -> Option<nat> {
    let digits = unsigned_digits(text);
    if are_digits(digits) && digits_value(digits) <= usize::MAX {
        Some(digits_value(digits))
    } else {
        None
    }
}

fn number(text: &Vec<char>) -> (n: Option<usize>)
    ensures
        match (n, number_in(text@)) {
            (Some(n), Some(held)) => n == held,
            (None, None) => true,
            _ => false,
        },
{
    let first: usize = if text.len() > 0 && text[0] == '+' {
        1
    } else {
        0
    };
    let ghost digits = unsigned_digits(text@);
    assert(digits =~= text@.skip(first as int));
    if text.len() == first {
        return None;
    }
    let mut value: usize = 0;
    let mut over = false;
    let mut at: usize = first;
    while at < text.len()
        invariant
            first <= at <= text@.len(),
            first <= 1,
            digits == text@.skip(first as int),
            digits == unsigned_digits(text@),
            forall|i: int| 0 <= i < at - first ==> '0' <= #[trigger] digits[i] <= '9',
            !over ==> value == digits_value(digits.take(at - first)),
            over ==> digits_value(digits.take(at - first)) > usize::MAX,
        decreases text@.len() - at,
    {
        let c = text[at];
        assert(digits[at - first] == c);
        if !('0' <= c && c <= '9') {
            assert(!are_digits(digits));
            assert(number_in(text@) is None);
            return None;
        }
        let digit: usize = (c as u32 - 48) as usize;
        assert(digits.take(at + 1 - first).drop_last() =~= digits.take(at - first));
        assert(digits.take(at + 1 - first).last() == c);
        if !over {
            if value > (usize::MAX - digit) / 10 {
                over = true;
                assert(10 * value + digit > usize::MAX);
            } else {
                value = 10 * value + digit;
            }
        }
        at += 1;
    }
    assert(digits.take(at - first) =~= digits);
    if over {
        None
    } else {
        Some(value)
    }
}

// ---------- a request's head ----------
/// The first line of a request, and the length its headers give its body.
#[derive(Debug)]
pub struct Head {
    pub method: String,
    pub path: String,
    pub length: usize,
}

/// The most of a body that is read: the page's answer is a few KiB.
pub const MAX_BODY: usize = 65_536;

/// The length a header line gives the body: the number after the first colon,
/// or 0 where that is none, if what stands before it is `content-length` in
/// letters of either case; `None` for any other line.
pub open spec fn length_in(line: Seq<char>) -> Option<nat> {
    let at = colon_at(line, 0);
    if at >= line.len() || line.take(at).map_values(|c: char| crate::text::lower(c))
        != "content-length"@ {
        None
    } else {
        match number_in(trim(line.skip(at + 1))) {
            Some(n) => Some(n),
            None => Some(0),
        }
    }
}

/// Where the first colon stands, from `at` on.
pub open spec fn colon_at(line: Seq<char>, at: int) -> int
    decreases line.len() - at,
{
    if at >= line.len() {
        line.len() as int
    } else if line[at] == ':' {
        at
    } else {
        colon_at(line, at + 1)
    }
}

fn lowered(text: &[char]) -> (low: String)
    ensures
        low@ == text@.map_values(|c: char| crate::text::lower(c)),
{
    let mut low = String::new();
    let mut at: usize = 0;
    while at < text.len()
        invariant
            at <= text@.len(),
            low@ == text@.take(at as int).map_values(|c: char| crate::text::lower(c)),
        decreases text@.len() - at,
    {
        let c = text[at];
        if 'A' <= c && c <= 'Z' {
            low.push(((c as u8) + 32) as char);
        } else {
            low.push(c);
        }
        assert(low@ =~= text@.take(at + 1).map_values(|c: char| crate::text::lower(c)));
        at += 1;
    }
    assert(text@.take(at as int) =~= text@);
    low
}

fn length_of(line: &str) -> (length: Option<usize>)
    ensures
        match (length, length_in(line@)) {
            (Some(length), Some(held)) => length == held,
            (None, None) => true,
            _ => false,
        },
{
    let chars = chars_of(line);
    let mut at: usize = 0;
    while at < chars.len() && chars[at] != ':'
        invariant
            chars@ == line@,
            at <= chars@.len(),
            colon_at(line@, 0) == colon_at(line@, at as int),
        decreases chars@.len() - at,
    {
        at += 1;
    }
    if at == chars.len() {
        return None;
    }
    let name = vstd::slice::slice_subrange(chars.as_slice(), 0, at);
    assert(name@ =~= line@.take(at as int));
    if !same_text(lowered(name).as_str(), "content-length") {
        return None;
    }
    let value = trimmed(&chars, at + 1);
    match number(&value) {
        Some(n) => Some(n),
        None => Some(0),
    }
}

/// Whether taking in `line` leaves the head as `after`, and ends it or not.
pub open spec fn head_heard(before: Head, line: Seq<char>, after: Head, ended: bool) -> bool {
    &&& ended == (trim(line).len() == 0)
    &&& after == (Head {
        length: if ended {
            before.length
        } else {
            match length_in(line) {
                Some(length) => length as usize,
                None => before.length,
            }
        },
        ..before
    })
}

impl Head {
    /// The head a request's first line begins: its method and its path are the
    /// line's first two words.
    pub fn begin(line: &str) -> (head: Head)
        ensures
            head.method@ == word_at(line@, 0),
            head.path@ == word_at(line@, word_end(line@, word_start(line@, 0))),
            head.length == 0,
    {
        let chars = chars_of(line);
        let method_start = start_of_word(&chars, 0);
        let method_end = end_of_word(&chars, method_start);
        let path_start = start_of_word(&chars, method_end);
        let path_end = end_of_word(&chars, path_start);
        Head {
            method: text_of(
                vstd::slice::slice_subrange(chars.as_slice(), method_start, method_end),
            ),
            path: text_of(vstd::slice::slice_subrange(chars.as_slice(), path_start, path_end)),
            length: 0,
        }
    }

    /// Takes in one more line, and says whether it ends the head: a line of
    /// nothing but white space does, as does the end of the stream, which
    /// reads as no line at all.
    pub fn heard(&mut self, line: &str) -> (ended: bool)
        ensures
            head_heard(*old(self), line@, *final(self), ended),
    {
        let chars = chars_of(line);
        let inner = trimmed(&chars, 0);
        assert(chars@.skip(0) =~= line@);
        if inner.len() == 0 {
            return true;
        }
        if let Some(length) = length_of(line) {
            self.length = length;
        }
        false
    }

    /// How much of the body is read.
    pub fn body_length(&self) -> (length: usize)
        ensures
            length == (if self.length < MAX_BODY {
                self.length
            } else {
                MAX_BODY
            }),
    {
        if self.length < MAX_BODY {
            self.length
        } else {
            MAX_BODY
        }
    }
}

// ---------- what is answered ----------
/// What a request to the listener comes to.
#[derive(Debug)]
pub enum Called {
    /// It is not the page's: the wait goes on.
    Another,
    /// It is the page's answer, and ends the wait.
    Answer(Result<Outcome, String>),
}

/// What the page is told.
pub open spec fn told(called: Called) -> (Seq<char>, Seq<char>) {
    match called {
        Called::Another => ("404 Not Found"@, "Not found."@),
        Called::Answer(Ok(_)) => ("200 OK"@, "Done. You can return to Ducktape."@),
        Called::Answer(Err(_)) => ("200 OK"@, "That didn't finish. Ducktape has the details."@),
    }
}

/// The page's answer in a request, where it is one: the field `result` of a
/// POST to the callback path `own`, and nothing else is.
pub open spec fn answer_in(own: Seq<char>, head: Head, body: Seq<u8>) -> Option<Seq<char>> {
    if head.path@ == own && head.method@ == "POST"@ {
        crate::backend::form::field_value(body, encode_utf8("result"@), 0)
    } else {
        None
    }
}

fn answer_of(own: &str, head: &Head, body: &[u8]) -> (result: Option<String>)
    ensures
        match (result, answer_in(own@, *head, body@)) {
            (Some(result), Some(text)) => result@ == text,
            (None, None) => true,
            _ => false,
        },
{
    if !same_text(head.path.as_str(), own) || !same_text(head.method.as_str(), "POST") {
        return None;
    }
    form_field(body, "result")
}

/// The key just made that a request brings, when it does: it is to be judged
/// before the request is answered.
pub fn key_called(own: &str, head: &Head, body: &[u8]) -> (key: Option<Vec<u8>>)
    ensures
        match (key, answer_in(own@, *head, body@)) {
            (Some(key), Some(result)) => crate::backend::passkey::makes_key(result)
                && crate::backend::passkey::binary_in(result, "publicKey"@, Some(key@)),
            (Some(_), None) => false,
            (None, Some(result)) => !crate::backend::passkey::makes_key(result),
            (None, None) => true,
        },
{
    match answer_of(own, head, body) {
        Some(result) => key_in(result.as_str()),
        None => None,
    }
}

/// What a request comes to: the page's answer ends the wait, and the wait goes
/// on past anything else. `wellformed` says of a key the answer brings (see
/// [`key_called`]) whether a verifier takes it.
pub fn called(own: &str, head: &Head, body: &[u8], wellformed: bool) -> (called: Called)
    ensures
        match answer_in(own@, *head, body@) {
            Some(result) => called matches Called::Answer(outcome)
                && crate::backend::passkey::result_in(result, wellformed, outcome),
            None => called is Another,
        },
{
    match answer_of(own, head, body) {
        Some(result) => Called::Answer(parse_result(result.as_str(), wellformed)),
        None => Called::Another,
    }
}

/// The status and the sentence the page is answered with.
pub fn answer(called: &Called) -> (words: (String, String))
    ensures
        (words.0@, words.1@) == told(*called),
{
    match called {
        Called::Another => ("404 Not Found".to_owned(), "Not found.".to_owned()),
        Called::Answer(Ok(_)) => (
            "200 OK".to_owned(),
            "Done. You can return to Ducktape.".to_owned(),
        ),
        Called::Answer(Err(_)) => (
            "200 OK".to_owned(),
            "That didn't finish. Ducktape has the details.".to_owned(),
        ),
    }
}

/// The page that says `said`.
pub open spec fn page_of(said: Seq<char>) -> Seq<char> {
    "<!doctype html><meta charset=utf-8><title>Ducktape</title><body style=\"font:16px system-ui;display:grid;place-items:center;min-height:90vh\"><p>"@
        + said + "</p>"@
}

/// The response with `status` that says `said`.
pub open spec fn response_text(status: Seq<char>, said: Seq<char>) -> Seq<char> {
    "HTTP/1.1 "@ + status
        + "\r\nContent-Type: text/html; charset=utf-8\r\nContent-Length: "@
        + crate::text::decimal(encode_utf8(page_of(said)).len()) + "\r\nConnection: close\r\n\r\n"@
        + page_of(said)
}

/// The response with `status` that says `said`.
pub fn respond(status: &str, said: &str) -> (response: String)
    ensures
        response@ == response_text(status@, said@),
{
    let html = joined3(
        "<!doctype html><meta charset=utf-8><title>Ducktape</title><body style=\"font:16px system-ui;display:grid;place-items:center;min-height:90vh\"><p>",
        said,
        "</p>",
    );
    let length: usize = html.as_str().as_bytes().len();
    let mut response = "HTTP/1.1 ".to_owned();
    response.append(status);
    response.append("\r\nContent-Type: text/html; charset=utf-8\r\nContent-Length: ");
    response.append(decimal_of(length as u64).as_str());
    response.append("\r\nConnection: close\r\n\r\n");
    response.append(html.as_str());
    response
}

// ---------- what these come to ----------
proof fn word_starts(text: Seq<char>, at: int)
    requires
        0 <= at <= text.len(),
    ensures
        at <= word_start(text, at) <= text.len(),
        forall|i: int| at <= i < word_start(text, at) ==> crate::text::white_space(#[trigger] text[i]),
        word_start(text, at) < text.len() ==> !crate::text::white_space(text[word_start(text, at)]),
    decreases text.len() - at,
{
    if at < text.len() && crate::text::white_space(text[at]) {
        word_starts(text, at + 1);
    }
}

proof fn word_ends(text: Seq<char>, at: int)
    requires
        0 <= at <= text.len(),
    ensures
        at <= word_end(text, at) <= text.len(),
        forall|i: int| at <= i < word_end(text, at) ==> !crate::text::white_space(#[trigger] text[i]),
        word_end(text, at) < text.len() ==> crate::text::white_space(text[word_end(text, at)]),
    decreases text.len() - at,
{
    if at < text.len() && !crate::text::white_space(text[at]) {
        word_ends(text, at + 1);
    }
}

/// A line's first word is what stands between the white space it begins with,
/// if any, and the next; its second is the same of what follows the first.
pub proof fn a_line_is_read_in_words(
    before: Seq<char>,
    first: Seq<char>,
    between: Seq<char>,
    second: Seq<char>,
    after: Seq<char>,
)
    requires
        first.len() > 0,
        second.len() > 0,
        between.len() > 0,
        forall|i: int| 0 <= i < before.len() ==> crate::text::white_space(#[trigger] before[i]),
        forall|i: int| 0 <= i < between.len() ==> crate::text::white_space(#[trigger] between[i]),
        forall|i: int| 0 <= i < first.len() ==> !crate::text::white_space(#[trigger] first[i]),
        forall|i: int| 0 <= i < second.len() ==> !crate::text::white_space(#[trigger] second[i]),
        after.len() > 0 ==> crate::text::white_space(after[0]),
    ensures
        ({
            let line = before + first + between + second + after;
            &&& word_at(line, 0) == first
            &&& word_at(line, word_end(line, word_start(line, 0))) == second
        }),
{
    let line = before + first + between + second + after;
    let a = before.len() as int;
    let b = a + first.len();
    let c = b + between.len();
    let d = c + second.len();
    assert forall|i: int| 0 <= i < a implies crate::text::white_space(#[trigger] line[i]) by {
        assert(line[i] == before[i]);
    }
    assert forall|i: int| a <= i < b implies !crate::text::white_space(#[trigger] line[i]) by {
        assert(line[i] == first[i - a]);
    }
    assert forall|i: int| b <= i < c implies crate::text::white_space(#[trigger] line[i]) by {
        assert(line[i] == between[i - b]);
    }
    assert forall|i: int| c <= i < d implies !crate::text::white_space(#[trigger] line[i]) by {
        assert(line[i] == second[i - c]);
    }
    if after.len() > 0 {
        assert(line[d] == after[0]);
    }
    word_starts(line, 0);
    assert(word_start(line, 0) == a) by {
        let at = word_start(line, 0);
        if at < a {
            assert(crate::text::white_space(line[at]));
        }
        if at > a {
            assert(crate::text::white_space(line[a]));
        }
    }
    word_ends(line, a);
    assert(word_end(line, a) == b) by {
        let at = word_end(line, a);
        if at < b {
            assert(!crate::text::white_space(line[at]));
        }
        if at > b {
            assert(!crate::text::white_space(line[b]));
        }
    }
    word_starts(line, b);
    assert(word_start(line, b) == c) by {
        let at = word_start(line, b);
        if at < c {
            assert(crate::text::white_space(line[at]));
        }
        if at > c {
            assert(crate::text::white_space(line[c]));
        }
    }
    word_ends(line, c);
    assert(word_end(line, c) == d) by {
        let at = word_end(line, c);
        if at < d {
            assert(!crate::text::white_space(line[at]));
        }
        if at > d {
            assert(!crate::text::white_space(line[d]));
        }
    }
    assert(line.subrange(a, b) =~= first);
    assert(line.subrange(c, d) =~= second);
}

proof fn end_trims(text: Seq<char>)
    ensures
        trim_end(text).len() <= text.len(),
        trim_end(text) == text.take(trim_end(text).len() as int),
        forall|i: int|
            trim_end(text).len() <= i < text.len() ==> crate::text::white_space(#[trigger] text[i]),
        trim_end(text).len() > 0 ==> !crate::text::white_space(trim_end(text).last()),
    decreases text.len(),
{
    if text.len() > 0 && crate::text::white_space(text.last()) {
        end_trims(text.drop_last());
        assert(text.drop_last().take(trim_end(text).len() as int) =~= text.take(
            trim_end(text).len() as int,
        ));
        assert forall|i: int| trim_end(text).len() <= i < text.len() implies crate::text::white_space(
            #[trigger] text[i],
        ) by {
            if i < text.len() - 1 {
                assert(text.drop_last()[i] == text[i]);
            }
        }
    } else {
        assert(text.take(text.len() as int) =~= text);
    }
}

/// Trimming drops the white space around a text and nothing else: what stays
/// neither begins nor ends with any.
pub proof fn trimming_drops_the_white_space_around(text: Seq<char>) -> (around: (
    Seq<char>,
    Seq<char>,
))
    ensures
        text == around.0 + trim(text) + around.1,
        forall|i: int| 0 <= i < around.0.len() ==> crate::text::white_space(#[trigger] around.0[i]),
        forall|i: int| 0 <= i < around.1.len() ==> crate::text::white_space(#[trigger] around.1[i]),
        trim(text).len() > 0 ==> !crate::text::white_space(trim(text)[0])
            && !crate::text::white_space(trim(text).last()),
{
    word_starts(text, 0);
    let start = word_start(text, 0);
    let rest = text.skip(start);
    end_trims(rest);
    let before = text.take(start);
    let after = rest.skip(trim(text).len() as int);
    assert(text =~= before + trim(text) + after);
    if trim(text).len() > 0 {
        assert(trim(text)[0] == rest[0]);
    }
    assert forall|i: int| 0 <= i < after.len() implies crate::text::white_space(
        #[trigger] after[i],
    ) by {
        assert(after[i] == rest[trim(text).len() + i]);
    }
    (before, after)
}

/// A number written in decimal is read as that number, with a plus sign or
/// without.
pub proof fn a_number_reads_back(n: nat)
    requires
        n <= usize::MAX,
    ensures
        number_in(crate::text::decimal(n)) == Some(n),
        number_in("+"@ + crate::text::decimal(n)) == Some(n),
{
    a_decimal_is_digits(n);
    let text = crate::text::decimal(n);
    reveal_strlit("+");
    assert(unsigned_digits(text) =~= text);
    assert(("+"@ + text).skip(1) =~= text);
}

/// A decimal is digits, and their value is the number.
pub proof fn a_decimal_is_digits(n: nat)
    ensures
        are_digits(crate::text::decimal(n)),
        digits_value(crate::text::decimal(n)) == n,
    decreases n,
{
    let text = crate::text::decimal(n);
    if n < 10 {
        reveal_with_fuel(digits_value, 2);
        assert(text.drop_last() =~= Seq::<char>::empty());
    } else {
        a_decimal_is_digits(n / 10);
        assert(text.drop_last() =~= crate::text::decimal(n / 10));
        assert(text.last() == crate::text::digit_char(n % 10));
        assert forall|i: int| 0 <= i < text.len() implies '0' <= #[trigger] text[i] <= '9' by {
            if i < text.len() - 1 {
                assert(text[i] == crate::text::decimal(n / 10)[i]);
            }
        }
    }
}

/// A header gives the body's length exactly where its name is `content-length`
/// in letters of either case: the number it is followed by, the white space
/// around it aside, and nothing where that is no number.
pub proof fn a_length_is_read_from_its_header(name: Seq<char>, value: Seq<char>)
    requires
        forall|i: int| 0 <= i < name.len() ==> #[trigger] name[i] != ':',
    ensures
        length_in(name + ":"@ + value) is Some <==> name.map_values(
            |c: char| crate::text::lower(c),
        ) == "content-length"@,
        length_in(name + ":"@ + value) is Some ==> length_in(name + ":"@ + value) == (match number_in(
            trim(value),
        ) {
            Some(n) => Some(n),
            None => Some(0),
        }),
{
    reveal_strlit(":");
    let line = name + ":"@ + value;
    colon_is_at(line, 0, name.len() as int);
    assert(line.take(name.len() as int) =~= name);
    assert(line.skip(name.len() as int + 1) =~= value);
}

proof fn colon_is_at(line: Seq<char>, at: int, place: int)
    requires
        0 <= at <= place < line.len(),
        line[place] == ':',
        forall|i: int| at <= i < place ==> #[trigger] line[i] != ':',
    ensures
        colon_at(line, at) == place,
    decreases place - at,
{
    if at < place {
        colon_is_at(line, at + 1, place);
    }
}

/// Only a POST to the listener's own path with a result in it is the page's
/// answer; and the page is told it is done exactly where the answer is good.
pub proof fn only_the_pages_own_answer_ends_the_wait(
    own: Seq<char>,
    head: Head,
    body: Seq<u8>,
    heard: Called,
)
    ensures
        answer_in(own, head, body) is Some ==> head.path@ == own && head.method@ == "POST"@,
        head.path@ == own && head.method@ == "POST"@ ==> answer_in(own, head, body)
            == crate::backend::form::field_value(body, encode_utf8("result"@), 0),
        heard is Another <==> told(heard).0 == "404 Not Found"@,
        (heard matches Called::Answer(Ok(_))) <==> told(heard).1
            == "Done. You can return to Ducktape."@,
        (heard matches Called::Answer(Err(_))) <==> told(heard).1
            == "That didn't finish. Ducktape has the details."@,
{
    reveal_strlit("404 Not Found");
    reveal_strlit("200 OK");
    reveal_strlit("Not found.");
    reveal_strlit("Done. You can return to Ducktape.");
    reveal_strlit("That didn't finish. Ducktape has the details.");
    assert("404 Not Found"@.len() != "200 OK"@.len());
    assert("Not found."@.len() != "Done. You can return to Ducktape."@.len());
    assert("That didn't finish. Ducktape has the details."@.len()
        != "Done. You can return to Ducktape."@.len());
    assert("That didn't finish. Ducktape has the details."@.len() != "Not found."@.len());
}

/// Where the page calls back: on this machine's own port, at a path that no
/// other 32 bytes make.
pub proof fn a_callback_is_of_its_bytes(
    id: &[u8; 32],
    path: String,
    other: &[u8; 32],
    elsewhere: String,
    port: u16,
    at: &str,
    url: String,
)
    requires
        call_ensures(callback_path_with, (id,), path),
        call_ensures(callback_path_with, (other,), elsewhere),
        call_ensures(callback_url, (port, at), url),
        at@ == path@,
    ensures
        path@ == elsewhere@ <==> id@ == other@,
        path@.take(4) == seq!['/', 'c', 'b', '/'],
        url@ == "http://127.0.0.1:"@ + crate::text::decimal(port as nat) + path@,
{
    reveal_strlit("/cb/");
    let mine = crate::outside::base64(id@);
    let theirs = crate::outside::base64(other@);
    assert(path@.skip(4) =~= mine);
    assert(elsewhere@.skip(4) =~= theirs);
    if path@ == elsewhere@ {
        crate::backend::join::base64_is_injective(id@, other@);
    }
    assert(path@.take(4) =~= seq!['/', 'c', 'b', '/']);
}

/// A request's method and path are the words its first line begins with, and
/// until a header says so it has no body.
pub proof fn a_request_begins_with_its_method(
    line: &str,
    head: Head,
    method: Seq<char>,
    between: Seq<char>,
    path: Seq<char>,
    after: Seq<char>,
)
    requires
        call_ensures(Head::begin, (line,), head),
        line@ == method + between + path + after,
        method.len() > 0 && path.len() > 0 && between.len() > 0,
        forall|i: int| 0 <= i < between.len() ==> crate::text::white_space(#[trigger] between[i]),
        forall|i: int| 0 <= i < method.len() ==> !crate::text::white_space(#[trigger] method[i]),
        forall|i: int| 0 <= i < path.len() ==> !crate::text::white_space(#[trigger] path[i]),
        after.len() > 0 ==> crate::text::white_space(after[0]),
    ensures
        head.method@ == method,
        head.path@ == path,
        head.length == 0,
{
    let none = Seq::<char>::empty();
    a_line_is_read_in_words(none, method, between, path, after);
    assert(none + method + between + path + after =~= line@);
}

/// A blank line ends a head and changes nothing; no other line ends it, and of
/// these only one that gives a length changes anything, which is the length.
pub proof fn a_blank_line_ends_a_head(before: Head, line: Seq<char>, after: Head, ended: bool)
    requires
        head_heard(before, line, after, ended),
    ensures
        ended <==> forall|i: int| 0 <= i < line.len() ==> crate::text::white_space(#[trigger] line[i]),
        after.method == before.method && after.path == before.path,
        ended ==> after.length == before.length,
        !ended && length_in(line) is None ==> after.length == before.length,
        !ended && length_in(line) is Some && length_in(line)->0 <= usize::MAX ==> after.length
            == length_in(line)->0,
{
    let (left, right) = trimming_drops_the_white_space_around(line);
    if ended {
        assert(line =~= left + right);
        assert forall|i: int| 0 <= i < line.len() implies crate::text::white_space(
            #[trigger] line[i],
        ) by {
            if i < left.len() {
                assert(line[i] == left[i]);
            } else {
                assert(line[i] == right[i - left.len()]);
            }
        }
    } else {
        assert(line[left.len() as int] == trim(line)[0]);
    }
}

/// A body is read as long as its head says, and no longer than 64 KiB.
pub proof fn a_body_is_read_as_far_as_its_length(head: &Head, length: usize)
    requires
        call_ensures(Head::body_length, (head,), length),
    ensures
        head.length <= 65_536 ==> length == head.length,
        head.length > 65_536 ==> length == 65_536,
{
}

/// The wait goes on past every request that is not a POST to the path itself
/// with a result in it, and past none that is; what ends it is what the result
/// says.
pub proof fn the_wait_goes_on_past_anything_else(
    own: &str,
    head: &Head,
    body: &[u8],
    wellformed: bool,
    heard: Called,
    words: (String, String),
    message: Seq<char>,
)
    requires
        call_ensures(called, (own, head, body, wellformed), heard),
        call_ensures(answer, (&heard,), words),
    ensures
        head.path@ != own@ || head.method@ != "POST"@ ==> heard is Another && words.0@
            == "404 Not Found"@,
        head.path@ == own@ && head.method@ == "POST"@ && body@ == encode_utf8(
            "result="@ + crate::backend::form::percent_encoded(encode_utf8(message)),
        ) ==> (heard matches Called::Answer(outcome) && crate::backend::passkey::result_in(
            message,
            wellformed,
            outcome,
        )) && words.0@ == "200 OK"@,
        (heard matches Called::Answer(Ok(_))) <==> words.1@ == "Done. You can return to Ducktape."@,
{
    only_the_pages_own_answer_ends_the_wait(own@, *head, body@, heard);
    crate::backend::form::a_message_survives_its_form(message);
}

/// A response says its status, what it is, how many bytes its page is, and
/// that nothing follows; then, behind a blank line, the page with what it says.
pub proof fn a_response_is_as_long_as_it_says(status: &str, said: &str, response: String) -> (page:
    Seq<char>)
    requires
        call_ensures(respond, (status, said), response),
    ensures
        response@ == "HTTP/1.1 "@ + status@
            + "\r\nContent-Type: text/html; charset=utf-8\r\nContent-Length: "@
            + crate::text::decimal(encode_utf8(page).len()) + "\r\nConnection: close\r\n\r\n"@
            + page,
        page
            == "<!doctype html><meta charset=utf-8><title>Ducktape</title><body style=\"font:16px system-ui;display:grid;place-items:center;min-height:90vh\"><p>"@
            + said@ + "</p>"@,
{
    page_of(said@)
}

/// What is not the page's answer is not found, and says so; the two answers are
/// told apart.
pub proof fn the_page_is_told_what_became_of_it(heard: Called, words: (String, String))
    requires
        call_ensures(answer, (&heard,), words),
    ensures
        heard is Another ==> words.0@ == "404 Not Found"@ && words.1@ == "Not found."@,
        heard is Answer ==> words.0@ == "200 OK"@,
        heard is Answer && heard->Answer_0 is Ok ==> words.1@ == "Done. You can return to Ducktape."@,
        heard is Answer && heard->Answer_0 is Err ==> words.1@
            == "That didn't finish. Ducktape has the details."@,
{
}

/// A key is judged only in the page's own answer.
pub proof fn a_key_is_judged_in_the_pages_own_answer(
    own: &str,
    head: &Head,
    body: &[u8],
    key: Option<Vec<u8>>,
    message: Seq<char>,
)
    requires
        call_ensures(key_called, (own, head, body), key),
    ensures
        key is Some ==> head.path@ == own@ && head.method@ == "POST"@,
        head.path@ == own@ && head.method@ == "POST"@ && body@ == encode_utf8(
            "result="@ + crate::backend::form::percent_encoded(encode_utf8(message)),
        ) ==> (key is Some <==> crate::backend::passkey::makes_key(message)),
        head.path@ == own@ && head.method@ == "POST"@ && body@ == encode_utf8(
            "result="@ + crate::backend::form::percent_encoded(encode_utf8(message)),
        ) && key is Some ==> crate::outside::json_text(message, "publicKey"@) == Some(
            crate::outside::base64(key->0@),
        ),
{
    crate::backend::form::a_message_survives_its_form(message);
}

/// Only digits write a number, one or more of them, behind a plus sign or not;
/// another digit at its end makes it ten times as much and the digit more; and
/// one no `usize` holds is none.
pub proof fn only_digits_write_a_number(text: Seq<char>, last: char)
    ensures
        number_in(Seq::empty()) is None,
        number_in(seq!['+']) is None,
        number_in(text) is Some ==> text.len() > 0 && (text[0] == '+' || '0' <= text[0] <= '9')
            && forall|i: int| 0 < i < text.len() ==> '0' <= #[trigger] text[i] <= '9',
        number_in(text) is Some ==> number_in(text)->0 <= usize::MAX,
        number_in(text) is Some && !('0' <= last <= '9') ==> number_in(text.push(last)) is None,
        number_in(text) is Some && '0' <= last <= '9' ==> {
            let more = 10 * number_in(text)->0 + (last as int - '0' as int);
            &&& more <= usize::MAX ==> number_in(text.push(last)) == Some(more as nat)
            &&& more > usize::MAX ==> number_in(text.push(last)) is None
        },
{
    let digits = unsigned_digits(text);
    assert(unsigned_digits(Seq::<char>::empty()).len() == 0);
    assert(seq!['+'].skip(1).len() == 0);
    if number_in(text) is Some {
        assert(digits[0] == digits[0] && are_digits(digits));
        assert forall|i: int| 0 < i < text.len() implies '0' <= #[trigger] text[i] <= '9' by {
            if text[0] == '+' {
                assert(digits[i - 1] == text[i]);
            } else {
                assert(digits[i] == text[i]);
            }
        }
        let more = text.push(last);
        assert(unsigned_digits(more) =~= digits.push(last));
        assert(digits.push(last).drop_last() =~= digits);
        assert(digits.push(last)[digits.len() as int] == last);
        if '0' <= last <= '9' {
            assert forall|i: int| 0 <= i < digits.len() + 1 implies '0' <= #[trigger] digits.push(
                last,
            )[i] <= '9' by {
                if i < digits.len() {
                    assert(digits.push(last)[i] == digits[i]);
                }
            }
        }
    }
}

} // verus!
