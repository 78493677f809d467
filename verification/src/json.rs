//! JSON texts.

use vstd::prelude::*;

verus! {

/// What `serde_json` writes for a JSON text in its indented form, or nothing where the text is no
/// JSON or is nested deeper than its parser goes.
pub uninterp spec fn pretty_json_of(text: Seq<char>) -> Option<Seq<char>>;

/// A JSON text in indented form.
///
/// Trusted: `serde_json::to_string_pretty` on the value that `serde_json::from_str` reads from a
/// text depends on the text alone.
#[verifier::external_body]
pub(crate) fn pretty_json(text: &str) -> (r: Option<String>)
    ensures
        match r {
            Some(pretty) => pretty_json_of(text@) == Some(pretty@),
            None => pretty_json_of(text@) is None,
        },
{
    let value: serde_json::Value = serde_json::from_str(text).ok()?;
    serde_json::to_string_pretty(&value).ok()
}

} // verus!
