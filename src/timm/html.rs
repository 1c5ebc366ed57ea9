//! The cells of a table in an HTML page, read with visdom.

use vstd::prelude::*;

verus! {

/// The views of a list of strings, in order.
pub open spec fn texts_of(v: Seq<String>) -> Seq<Seq<char>> {
    v.map_values(|s: String| s@)
}

/// The texts of the elements that the CSS selector `selector` picks out of the
/// document `html`, in document order; `None` where the document cannot be
/// loaded.
pub uninterp spec fn cell_texts_in(html: Seq<char>, selector: Seq<char>) -> Option<Seq<Seq<char>>>;

/// Relies on visdom: `Vis::load` parses the document, `Elements::find` picks
/// the elements that the selector matches, and `text` gives the text of each.
/// What comes back depends on the document and the selector alone.
#[verifier::external_body]
pub(crate) fn cell_texts(html: &str, selector: &str) -> (r: Option<Vec<String>>)
    ensures
        r is None <==> cell_texts_in(html@, selector@) is None,
        r matches Some(v) ==> cell_texts_in(html@, selector@) == Some(texts_of(v@)),
{
    let doc = visdom::Vis::load(html).ok()?;
    Some(doc.find(selector).map(|_index, ele| visdom::Vis::dom(ele).text()))
}

} // verus!
