use vstd::prelude::*;

use crate::extractor::FeedItem;
use crate::extractor::ItemV;
use crate::extractor::spec_extract;
use crate::extractor::views_of_items;
use crate::parser::FeedError;
use crate::parser::doc_events;
use crate::parser::doc_well_formed;
use crate::parser::parse_feed_xml;

verus! {

/// Per-source record sequences concatenated in source-list order.
pub open spec fn concat_all(parts: Seq<Seq<ItemV>>) -> Seq<ItemV>
    decreases parts.len(),
{
    if parts.len() == 0 {
        Seq::empty()
    } else {
        parts[0] + concat_all(parts.drop_first())
    }
}

/// The record sequence each document's text determines: the extraction of
/// the document's event stream.
pub open spec fn extracts_of(docs: Seq<String>) -> Seq<Seq<ItemV>> {
    docs.map_values(|d: String| spec_extract(doc_events(d@)))
}

proof fn lemma_concat_all_push(parts: Seq<Seq<ItemV>>, part: Seq<ItemV>)
    ensures
        concat_all(parts.push(part)) == concat_all(parts) + part,
    decreases parts.len(),
{
    let whole = parts.push(part);
    if parts.len() == 0 {
        assert(whole[0] == part);
        assert(whole.drop_first() =~= Seq::<Seq<ItemV>>::empty());
        assert(concat_all(whole.drop_first()) =~= Seq::<ItemV>::empty());
        assert(concat_all(whole) =~= concat_all(parts) + part);
    } else {
        assert(whole[0] == parts[0]);
        assert(whole.drop_first() =~= parts.drop_first().push(part));
        lemma_concat_all_push(parts.drop_first(), part);
        assert(concat_all(whole) =~= concat_all(parts) + part);
    }
}

/// Parses every fetched document, in source-list order, and merges their
/// records into one sequence that preserves source order and, within one
/// source, document order. The run succeeds exactly when every document is
/// well-formed; the first malformed document aborts the whole run with its
/// parse error and no partial output.
#[verifier::loop_isolation(false)]
pub fn parse_all_feeds(docs: &Vec<String>) -> (r: Result<Vec<FeedItem>, FeedError>)
    ensures
        (r is Ok <==> (forall|j: int| 0 <= j < docs@.len() ==> #[trigger] doc_well_formed(
            docs@[j]@,
        ))),
        (r matches Ok(items) ==> views_of_items(items@) == concat_all(extracts_of(docs@))),
{
    let mut all: Vec<FeedItem> = Vec::new();
    proof {
        assert(docs@.take(0) =~= Seq::<String>::empty());
        assert(extracts_of(docs@.take(0)) =~= Seq::<Seq<ItemV>>::empty());
        assert(concat_all(Seq::<Seq<ItemV>>::empty()) =~= Seq::<ItemV>::empty());
        assert(views_of_items(all@) =~= Seq::<ItemV>::empty());
    }
    for i in 0..docs.len()
        invariant
            views_of_items(all@) == concat_all(extracts_of(docs@.take(i as int))),
            forall|k: int| 0 <= k < i ==> #[trigger] doc_well_formed(docs@[k]@),
    {
        let ghost pre_all = all@;
        match parse_feed_xml(docs[i].as_str()) {
            Ok(mut items) => {
                let ghost items_view = views_of_items(items@);
                all.append(&mut items);
                proof {
                    assert(doc_well_formed(docs@[i as int]@));
                    assert(items_view == spec_extract(doc_events(docs@[i as int]@)));
                    lemma_concat_all_push(extracts_of(docs@.take(i as int)), items_view);
                    assert(extracts_of(docs@.take(i as int + 1)) =~= extracts_of(
                        docs@.take(i as int),
                    ).push(items_view));
                    assert(views_of_items(all@) =~= views_of_items(pre_all) + items_view);
                    assert(views_of_items(all@) =~= concat_all(
                        extracts_of(docs@.take(i as int + 1)),
                    ));
                }
            },
            Err(e) => {
                proof {
                    assert(!doc_well_formed(docs@[i as int]@));
                }
                return Err(e);
            },
        }
    }
    proof {
        assert(docs@.take(docs@.len() as int) =~= docs@);
    }
    Ok(all)
}

} // verus!
