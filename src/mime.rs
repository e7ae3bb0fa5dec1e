//! Media types from content signatures.
use vstd::prelude::*;

verus! {

/// The media type that content sniffing finds for `content`, if any signature matches.
pub uninterp spec fn sniffed_type(content: Seq<u8>) -> Option<Seq<char>>;

/// The media type served when no signature matches.
pub open spec fn generic_binary() -> Seq<char> {
    "application/octet-stream"@
}

/// The media type served for content whose sniffed type is `sniffed`.
pub open spec fn served_type(sniffed: Option<Seq<char>>) -> Seq<char> {
    match sniffed {
        Some(m) => m,
        None => generic_binary(),
    }
}

/// Relies on `infer::get` and `infer::Type::mime_type`: the matchers look only at the
/// bytes given, so the answer is a function of them.
#[verifier::external_body]
fn sniff(content: &[u8]) -> (r: Option<String>)
    ensures
        match r {
            Some(m) => sniffed_type(content@) == Some(m@),
            None => sniffed_type(content@) is None,
        },
{
    match infer::get(content) {
        Some(kind) => Some(kind.mime_type().to_string()),
        None => None,
    }
}

/// The media type to serve for a sniffing result: the sniffed type, or the generic binary type.
pub fn type_or_default(sniffed: Option<String>) -> (r: String)
    ensures
        r@ == served_type(
            match sniffed {
                Some(m) => Some(m@),
                None => None,
            },
        ),
{
    match sniffed {
        Some(m) => m,
        None => {
            proof {
                reveal_strlit("application/octet-stream");
            }
            "application/octet-stream".to_string()
        },
    }
}

/// Classifies content by its leading signature bytes.
pub fn classify(content: &[u8]) -> (r: String)
    ensures
        r@ == served_type(sniffed_type(content@)),
{
    type_or_default(sniff(content))
}

} // verus!
