//! The per-connection decisions, as steps that name the filesystem work to do next.
use vstd::prelude::*;
use crate::request::{parse_request, request_target, requested_path};
use crate::response::{directory_reply, directory_response, file_reply, file_response,
    not_found, not_found_response, server_error, server_error_response};
use crate::sandbox::{candidate, candidate_path, is_within, within};

verus! {

/// What the filesystem reports a canonical location to be.
#[derive(Clone, Copy, Debug, PartialEq, Eq, Structural)]
pub enum FileKind {
    Directory,
    File,
    Other,
}

/// The next thing to do for a connection. Every variant but `Respond` asks the caller to do
/// some filesystem work and to hand its result to the matching step.
#[derive(Clone, Debug)]
pub enum Action {
    /// Write these bytes back and close the connection.
    Respond(Vec<u8>),
    /// Canonicalize the root and this location, then call `after_canonical`.
    Canonicalize(Vec<u8>),
    /// Find out what this canonical location is, then call `after_inspect`.
    Inspect(Vec<u8>),
    /// List this directory's immediate entries, then call `after_listing`.
    ListDirectory(Vec<u8>),
    /// Read this file whole, then call `after_read`.
    ReadFile(Vec<u8>),
}

/// The mathematical view of an `Action`: the same variants over byte sequences.
pub ghost enum Step {
    Respond(Seq<u8>),
    Canonicalize(Seq<u8>),
    Inspect(Seq<u8>),
    ListDirectory(Seq<u8>),
    ReadFile(Seq<u8>),
}

impl View for Action {
    type V = Step;

    open spec fn view(&self) -> Step {
        match self {
            Action::Respond(b) => Step::Respond(b@),
            Action::Canonicalize(p) => Step::Canonicalize(p@),
            Action::Inspect(p) => Step::Inspect(p@),
            Action::ListDirectory(p) => Step::ListDirectory(p@),
            Action::ReadFile(p) => Step::ReadFile(p@),
        }
    }
}

/// The first step for a connection that sent `received`, under `root`.
pub open spec fn start_step(root: Seq<u8>, received: Seq<u8>) -> Step {
    match requested_path(received) {
        Some(p) => Step::Canonicalize(candidate(root, p)),
        None => Step::Respond(not_found()),
    }
}

/// The step once the root and the candidate have been canonicalized (`None`: it failed).
pub open spec fn canonical_step(root: Option<Seq<u8>>, resolved: Option<Seq<u8>>) -> Step {
    match (root, resolved) {
        (Some(r), Some(c)) => if within(r, c) {
            Step::Inspect(c)
        } else {
            Step::Respond(not_found())
        },
        _ => Step::Respond(not_found()),
    }
}

/// The step once a resolved location has been found to be of kind `kind`.
pub open spec fn inspect_step(path: Seq<u8>, kind: FileKind) -> Step {
    match kind {
        FileKind::Directory => Step::ListDirectory(path),
        FileKind::File => Step::ReadFile(path),
        FileKind::Other => Step::Respond(not_found()),
    }
}

/// The reply once a file has been read (`None`: reading failed).
pub open spec fn read_reply(content: Option<Seq<u8>>) -> Seq<u8> {
    match content {
        Some(c) => file_reply(c),
        None => server_error(),
    }
}

/// The view of an optional byte vector.
pub open spec fn opt_view(o: Option<Vec<u8>>) -> Option<Seq<u8>> {
    match o {
        Some(v) => Some(v@),
        None => None,
    }
}

/// Parses what a connection sent and names the location to canonicalize under `root`;
/// a request that cannot be parsed gets the not-found reply.
pub fn start(root: &[u8], received: &[u8]) -> (r: Action)
    ensures
        r@ == start_step(root@, received@),
{
    match parse_request(received) {
        Some(p) => Action::Canonicalize(candidate_path(root, p.as_slice())),
        None => Action::Respond(not_found_response()),
    }
}

/// Decides on the canonical root and candidate. Only a candidate inside the root goes on;
/// a failed canonicalization and a location outside the root get the same not-found reply.
pub fn after_canonical(root: Option<Vec<u8>>, resolved: Option<Vec<u8>>) -> (r: Action)
    ensures
        r@ == canonical_step(opt_view(root), opt_view(resolved)),
        r is Inspect ==> root is Some && within(root->Some_0@, r->Inspect_0@),
{
    match (root, resolved) {
        (Some(r), Some(c)) => {
            if is_within(r.as_slice(), c.as_slice()) {
                Action::Inspect(c)
            } else {
                Action::Respond(not_found_response())
            }
        },
        _ => Action::Respond(not_found_response()),
    }
}

/// Dispatches on what a resolved location is: a directory is listed, a regular file is read,
/// anything else gets the not-found reply.
pub fn after_inspect(path: Vec<u8>, kind: FileKind) -> (r: Action)
    ensures
        r@ == inspect_step(path@, kind),
{
    match kind {
        FileKind::Directory => Action::ListDirectory(path),
        FileKind::File => Action::ReadFile(path),
        FileKind::Other => Action::Respond(not_found_response()),
    }
}

/// The reply for a directory once its entries have been listed.
pub fn after_listing(entries: &Vec<Vec<u8>>) -> (r: Vec<u8>)
    ensures
        r@ == directory_reply(entries.deep_view()),
{
    directory_response(entries)
}

/// The reply for a file once it has been read; a failed read gets the server-error reply.
pub fn after_read(content: Option<Vec<u8>>) -> (r: Vec<u8>)
    ensures
        r@ == read_reply(opt_view(content)),
{
    match content {
        Some(c) => file_response(c.as_slice()),
        None => server_error_response(),
    }
}

/// Containment: a request for the decoded path `p` has the join of the root and `p`
/// canonicalized, and when that canonical location does not lie inside the canonical root as
/// whole segments, the request is rejected with the not-found reply.
pub proof fn lemma_escape_rejected(
    root: Seq<u8>,
    received: Seq<u8>,
    p: Seq<u8>,
    canon_root: Seq<u8>,
    canon_resolved: Seq<u8>,
)
    requires
        requested_path(received) == Some(p),
        !within(canon_root, canon_resolved),
    ensures
        start_step(root, received) == Step::Canonicalize(candidate(root, p)),
        canonical_step(Some(canon_root), Some(canon_resolved)) == Step::Respond(not_found()),
{
}

/// Only a location inside the canonical root is ever handed on for inspection, and it is
/// handed on unchanged.
pub proof fn lemma_inspected_within(root: Option<Seq<u8>>, resolved: Option<Seq<u8>>)
    ensures
        canonical_step(root, resolved) is Inspect ==> root is Some && resolved is Some
            && within(root->Some_0, resolved->Some_0)
            && canonical_step(root, resolved) == Step::Inspect(resolved->Some_0),
{
}

/// A request whose first line ends before a second token, or that has no line end at all,
/// gets the not-found reply.
pub proof fn lemma_unparsable_not_found(root: Seq<u8>, received: Seq<u8>)
    requires
        request_target(received) is None,
    ensures
        start_step(root, received) == Step::Respond(not_found()),
{
}

/// A location that does not exist and a location outside the root get the same reply.
pub proof fn lemma_missing_like_outside(canon_root: Seq<u8>, outside: Seq<u8>)
    requires
        !within(canon_root, outside),
    ensures
        canonical_step(Some(canon_root), None) == canonical_step(Some(canon_root), Some(outside)),
        canonical_step(Some(canon_root), None) == Step::Respond(not_found()),
{
}

} // verus!
