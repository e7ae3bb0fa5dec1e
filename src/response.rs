//! The bytes written back on a connection.
use vstd::prelude::*;
use vstd::string::StringSliceAdditionalSpecFns;
use crate::bytes::{push_all, push_str};
use crate::mime::{classify, served_type, sniffed_type};

verus! {

/// The uniform reply to a request that cannot be parsed or resolved.
pub open spec fn not_found() -> Seq<u8> {
    "HTTP/1.1 404 NOT FOUND\r\n\r\n".spec_bytes()
}

/// The reply when a file that passed every check cannot be read.
pub open spec fn server_error() -> Seq<u8> {
    "HTTP/1.1 500 INTERNAL SERVER ERROR\r\n\r\n".spec_bytes()
}

/// The status line and headers of a successful reply whose body has media type `mime`.
pub open spec fn ok_head(mime: Seq<u8>) -> Seq<u8> {
    "HTTP/1.1 200 OK\r\nContent-Type: ".spec_bytes() + mime + "\r\n\r\n".spec_bytes()
}

/// One entry of a listing: a link whose target and text are both the entry's path.
pub open spec fn link(entry: Seq<u8>) -> Seq<u8> {
    "<a href=\"".spec_bytes() + entry + "\">".spec_bytes() + entry + "</a><br>".spec_bytes()
}

/// The links of all `entries`, in order.
pub open spec fn links(entries: Seq<Seq<u8>>) -> Seq<u8>
    decreases entries.len(),
{
    if entries.len() == 0 {
        Seq::<u8>::empty()
    } else {
        links(entries.drop_last()) + link(entries.last())
    }
}

/// The HTML document that lists `entries`.
pub open spec fn listing_page(entries: Seq<Seq<u8>>) -> Seq<u8> {
    "<html><body>".spec_bytes() + links(entries) + "</body></html>".spec_bytes()
}

/// The full reply for a directory whose entries are `entries`.
pub open spec fn directory_reply(entries: Seq<Seq<u8>>) -> Seq<u8> {
    ok_head("text/html".spec_bytes()) + listing_page(entries)
}

/// The full reply for a file holding `content`.
pub open spec fn file_reply(content: Seq<u8>) -> Seq<u8> {
    ok_head(vstd::utf8::encode_utf8(served_type(sniffed_type(content)))) + content
}

pub fn not_found_response() -> (r: Vec<u8>)
    ensures
        r@ == not_found(),
{
    let mut r: Vec<u8> = Vec::new();
    push_str(&mut r, "HTTP/1.1 404 NOT FOUND\r\n\r\n");
    r
}

pub fn server_error_response() -> (r: Vec<u8>)
    ensures
        r@ == server_error(),
{
    let mut r: Vec<u8> = Vec::new();
    push_str(&mut r, "HTTP/1.1 500 INTERNAL SERVER ERROR\r\n\r\n");
    r
}

fn push_ok_head(out: &mut Vec<u8>, mime: &str)
    ensures
        final(out)@ == old(out)@ + ok_head(mime.spec_bytes()),
{
    push_str(out, "HTTP/1.1 200 OK\r\nContent-Type: ");
    push_str(out, mime);
    push_str(out, "\r\n\r\n");
}

/// Renders the HTML listing of a directory's entries.
pub fn render_listing(entries: &Vec<Vec<u8>>) -> (r: Vec<u8>)
    ensures
        r@ == listing_page(entries.deep_view()),
{
    let mut r: Vec<u8> = Vec::new();
    push_str(&mut r, "<html><body>");
    let ghost head = r@;
    let mut i: usize = 0;
    while i < entries.len()
        invariant
            i <= entries@.len(),
            r@ == head + links(entries.deep_view().subrange(0, i as int)),
        decreases entries@.len() - i,
    {
        let e = entries[i].as_slice();
        push_str(&mut r, "<a href=\"");
        push_all(&mut r, e);
        push_str(&mut r, "\">");
        push_all(&mut r, e);
        push_str(&mut r, "</a><br>");
        i = i + 1;
        let ghost sub = entries.deep_view().subrange(0, i as int);
        assert(sub.drop_last() == entries.deep_view().subrange(0, i - 1 as int));
        assert(sub.last() == e@);
    }
    assert(entries.deep_view().subrange(0, entries@.len() as int) == entries.deep_view());
    push_str(&mut r, "</body></html>");
    r
}

/// The reply for a directory: a success head with the HTML type, then the listing.
pub fn directory_response(entries: &Vec<Vec<u8>>) -> (r: Vec<u8>)
    ensures
        r@ == directory_reply(entries.deep_view()),
{
    let mut r: Vec<u8> = Vec::new();
    push_ok_head(&mut r, "text/html");
    let page = render_listing(entries);
    push_all(&mut r, page.as_slice());
    r
}

/// The reply for a file: a success head with the sniffed type, then the raw content.
pub fn file_response(content: &[u8]) -> (r: Vec<u8>)
    ensures
        r@ == file_reply(content@),
{
    let mime = classify(content);
    let mut r: Vec<u8> = Vec::new();
    push_ok_head(&mut r, mime.as_str());
    push_all(&mut r, content);
    r
}

} // verus!
