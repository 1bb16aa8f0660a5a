//! Addresses on the auth host: the host of a page, and a path of ours.

use vstd::prelude::*;

use crate::outside::url_with_path;
use crate::text::chars_of;
use crate::text::text_of;

verus! {

/// Where an address's path ends, looking from `at` on: at its query or its
/// fragment, whichever comes first, or where the address does.
pub open spec fn path_end(address: Seq<char>, at: int) -> int
    decreases address.len() - at,
{
    if at >= address.len() {
        address.len() as int
    } else if address[at] == '?' || address[at] == '#' {
        at
    } else {
        path_end(address, at + 1)
    }
}

/// `address` without its query and its fragment.
pub open spec fn bare(address: Seq<char>) -> Seq<char> {
    address.take(path_end(address, 0))
}

/// The address of `path` on the host of the page at `page`, or what is the
/// matter with `page`.
pub open spec fn address_on(page: Seq<char>, path: Seq<char>) -> Result<Seq<char>, Seq<char>> {
    match crate::outside::address_with_path(page, path) {
        Ok(address) => Ok(bare(address)),
        Err(error) => Err(error),
    }
}

/// `address` without its query and its fragment. In an address as it is
/// written out, `?` and `#` stand for themselves only where these begin.
pub fn bare_address(address: &str) -> (text: String)
    ensures
        text@ == bare(address@),
{
    let chars = chars_of(address);
    let mut at: usize = 0;
    while at < chars.len() && chars[at] != '?' && chars[at] != '#'
        invariant
            chars@ == address@,
            at <= chars@.len(),
            path_end(address@, 0) == path_end(address@, at as int),
        decreases chars@.len() - at,
    {
        at += 1;
    }
    let text = text_of(vstd::slice::slice_subrange(chars.as_slice(), 0, at));
    assert(text@ =~= bare(address@));
    text
}

/// The address of `path` on the host of the page at `page`. A plain path is
/// what it ends with, but for the first `/`.
pub fn address_of(page: &str, path: &str) -> (url: Result<String, String>)
    requires
        page@.len() <= 0x200_0000,
        path@.len() <= 0x1_0000,
    ensures
        match (url, address_on(page@, path@)) {
            (Ok(url), Ok(text)) => url@ == text,
            (Err(error), Err(text)) => error@ == text,
            _ => false,
        },
        url matches Ok(url) ==> crate::outside::plain_path(path@) ==> crate::outside::ends_with(
            url@,
            path@.skip(1),
        ),
{
    match url_with_path(page, path) {
        Ok(url) => Ok(bare_address(url.as_str())),
        Err(error) => Err(error),
    }
}

proof fn path_ends(address: Seq<char>, at: int)
    requires
        0 <= at <= address.len(),
    ensures
        at <= path_end(address, at) <= address.len(),
        forall|i: int|
            at <= i < path_end(address, at) ==> #[trigger] address[i] != '?' && address[i] != '#',
        path_end(address, at) < address.len() ==> address[path_end(address, at)] == '?'
            || address[path_end(address, at)] == '#',
    decreases address.len() - at,
{
    if at < address.len() && address[at] != '?' && address[at] != '#' {
        path_ends(address, at + 1);
    }
}

/// An address stripped is what stands before the first `?` or `#` in it, and
/// all of it where neither is.
pub proof fn an_address_is_stripped_of_its_query(address: &str, text: String)
    requires
        call_ensures(bare_address, (address,), text),
    ensures
        text@ == address@.take(text@.len() as int),
        forall|i: int| 0 <= i < text@.len() ==> #[trigger] text@[i] != '?' && text@[i] != '#',
        text@.len() == address@.len() || address@[text@.len() as int] == '?'
            || address@[text@.len() as int] == '#',
{
    path_ends(address@, 0);
    assert forall|i: int| 0 <= i < text@.len() implies #[trigger] text@[i] != '?' && text@[i]
        != '#' by {
        assert(text@[i] == address@[i]);
    }
}

/// An address on a page's host is the page's with the path for its own, without
/// a query or a fragment; where the page has no such, it is told why.
pub proof fn an_address_is_on_the_pages_host(
    page: &str,
    path: &str,
    url: Result<String, String>,
    bared: String,
    address: &str,
)
    requires
        call_ensures(address_of, (page, path), url),
        call_ensures(bare_address, (address,), bared),
    ensures
        ({
            let whole = crate::outside::address_with_path(page@, path@);
            &&& url is Ok <==> whole is Ok
            &&& whole is Ok && whole->Ok_0 == address@ ==> url->Ok_0@ == bared@
            &&& whole is Err ==> url->Err_0@ == whole->Err_0
        }),
{
}

} // verus!
