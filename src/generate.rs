use vstd::prelude::*;
use crate::config::{LevelEntry, document_error, is_listing, lemma_listing_unique, validate};
use crate::error::ParseError;
use crate::matrix::{MAX_TOONS, build_matrix, lemma_table_shape, spec_build};
use crate::node::Node;
use crate::render::{columns_text, head_foot_text, key_columns, page_text, render};

verus! {

/// The listing of a document's level entries; a document without a
/// document error has exactly one.
pub open spec fn spec_listing(doc: Node) -> Seq<LevelEntry<'static>> {
    choose|es: Seq<LevelEntry<'static>>| is_listing(doc->Table_0@, es)
}

/// The HTML document that a configuration document renders to, or the
/// first error that refuses it.
pub open spec fn spec_generate(doc: Node) -> Result<Seq<char>, ParseError> {
    match document_error(doc) {
        Some(e) => Err(e),
        None => match spec_build(spec_listing(doc)) {
            Err(e) => Err(e),
            Ok(m) => Ok(page_text(m)),
        },
    }
}

/// Validates a configuration document, builds its table and renders it.
/// Nothing is rendered unless the whole document is valid.
pub fn generate_html(doc: &Node) -> (r: Result<String, ParseError>)
    ensures
        r is Ok <==> spec_generate(*doc) is Ok,
        r is Ok ==> r->Ok_0@ == spec_generate(*doc)->Ok_0,
        r is Err ==> r->Err_0 == spec_generate(*doc)->Err_0,
{
    let entries = match validate(doc) {
        Ok(es) => es,
        Err(e) => return Err(e),
    };
    proof {
        lemma_listing_unique(doc->Table_0@, entries@, spec_listing(*doc));
    }
    let m = match build_matrix(&entries) {
        Ok(m) => m,
        Err(e) => return Err(e),
    };
    Ok(render(&m))
}

/// Validating one document twice gives the same listing, so building and
/// rendering give the same table and the same bytes.
pub proof fn lemma_output_determined(doc: Node, a: Seq<LevelEntry>, b: Seq<LevelEntry>)
    requires
        doc is Table,
        is_listing(doc->Table_0@, a),
        is_listing(doc->Table_0@, b),
    ensures
        spec_build(a) == spec_build(b),
        spec_build(a) is Ok ==> page_text(spec_build(a)->Ok_0) == page_text(spec_build(b)->Ok_0),
{
    lemma_listing_unique(doc->Table_0@, a, b);
}

/// A table with one level entry has two header columns (not lured, then
/// lured), repeated in the footer, and eight body rows of two cells each.
pub proof fn lemma_single_entry_table(es: Seq<LevelEntry>)
    requires
        es.len() == 1,
        spec_build(es) is Ok,
    ensures
        ({
            let m = spec_build(es)->Ok_0;
            &&& m.keys == seq![es[0].key]
            &&& head_foot_text(m.keys) == "        <th class=\"empty-cell\"></th>\n"@ + key_columns(
                es[0].key,
            )
            &&& m.rows.len() == 2 * MAX_TOONS
            &&& forall|r: int| 0 <= r < m.rows.len() ==> (#[trigger] m.rows[r]).cells.len() == 2
        }),
{
    lemma_table_shape(es);
    let m = spec_build(es)->Ok_0;
    assert(m.keys =~= seq![es[0].key]);
    assert(columns_text(m.keys, 0) == Seq::<char>::empty());
    assert(columns_text(m.keys, 1) =~= key_columns(es[0].key));
}

} // verus!
