//! What follows from the contracts of the repository interface when its
//! operations are run one after another. Each law speaks of the rows alone,
//! so it holds of every store that keeps to the interface, and of the
//! service above it.

use crate::repo::site::{found, holds, lists, replaced, Rows, SiteFields, SiteId, SiteView};
use vstd::prelude::*;

verus! {

/// An identifier that no row has is answered with absence by a lookup, by
/// an update and by a deletion, and neither of the two changes any row.
pub proof fn law_absent_stays_absent(rows: Rows, id: SiteId, fields: SiteFields)
    requires
        !rows.contains_key(id),
    ensures
        found(rows, id) is None,
        replaced(rows, id, fields) == rows,
        found(replaced(rows, id, fields), id) is None,
        rows.remove(id) == rows,
{
    assert(rows.remove(id) =~= rows);
}

/// A site that was created and then updated is read back with the new
/// fields under the identifier it was created with: by a lookup, and as
/// the one entry with that identifier in every listing. No other row has
/// changed.
pub proof fn law_update_is_read_back(
    rows: Rows,
    id: SiteId,
    first: SiteFields,
    second: SiteFields,
    listing: Seq<SiteView>,
)
    requires
        !rows.contains_key(id),
        lists(listing, replaced(rows.insert(id, first), id, second)),
    ensures
        found(rows.insert(id, first), id) == Some(SiteView { id, fields: first }),
        found(replaced(rows.insert(id, first), id, second), id) == Some(
            SiteView { id, fields: second },
        ),
        replaced(rows.insert(id, first), id, second) == rows.insert(id, second),
        exists|i: int|
            0 <= i < listing.len() && #[trigger] listing[i] == (SiteView { id, fields: second }),
        forall|i: int|
            0 <= i < listing.len() && (#[trigger] listing[i]).id == id ==> listing[i].fields
                == second,
{
    let updated = replaced(rows.insert(id, first), id, second);
    assert(updated =~= rows.insert(id, second));
    assert(updated.contains_key(id));
    let at: int = choose|i: int| 0 <= i < listing.len() && (#[trigger] listing[i]).id == id;
    assert(holds(updated, listing[at]));
    assert(listing[at] == SiteView { id, fields: second });
    assert forall|i: int| 0 <= i < listing.len() && (#[trigger] listing[i]).id == id implies
        listing[i].fields == second
    by {
        assert(holds(updated, listing[i]));
    }
}

/// A site that was created and then deleted is gone: the deletion hands it
/// out as it was, a lookup answers with absence, no listing holds an entry
/// with its identifier, and the rows are those from before the creation.
pub proof fn law_delete_removes(rows: Rows, id: SiteId, fields: SiteFields, listing: Seq<SiteView>)
    requires
        !rows.contains_key(id),
        lists(listing, rows.insert(id, fields).remove(id)),
    ensures
        found(rows.insert(id, fields), id) == Some(SiteView { id, fields }),
        found(rows.insert(id, fields).remove(id), id) is None,
        rows.insert(id, fields).remove(id) == rows,
        forall|i: int| 0 <= i < listing.len() ==> (#[trigger] listing[i]).id != id,
{
    let deleted = rows.insert(id, fields).remove(id);
    assert(deleted =~= rows);
    assert forall|i: int| 0 <= i < listing.len() implies (#[trigger] listing[i]).id != id by {
        assert(holds(deleted, listing[i]));
    }
}

/// Deleting twice is deleting once: after a deletion the identifier is
/// absent, so a second deletion answers with absence and changes nothing.
pub proof fn law_delete_is_idempotent(rows: Rows, id: SiteId)
    ensures
        found(rows.remove(id), id) is None,
        rows.remove(id).remove(id) == rows.remove(id),
{
    assert(rows.remove(id).remove(id) =~= rows.remove(id));
}

/// A listing has as many entries as the store has rows.
pub proof fn law_listing_counts_rows(listing: Seq<SiteView>, rows: Rows)
    requires
        lists(listing, rows),
    ensures
        rows.dom().finite(),
        rows.dom().len() == listing.len(),
    decreases listing.len(),
{
    if listing.len() == 0 {
        assert(rows.dom() =~= Set::<SiteId>::empty());
    } else {
        let last = listing.last();
        let rest = listing.drop_last();
        let fewer = rows.remove(last.id);
        assert(holds(rows, listing[listing.len() - 1]));
        assert forall|i: int| 0 <= i < rest.len() implies holds(fewer, #[trigger] rest[i]) by {
            assert(rest[i] == listing[i]);
            assert(holds(rows, listing[i]));
            assert(listing[i].id != listing[listing.len() - 1].id);
        }
        assert forall|id: SiteId| #[trigger] fewer.contains_key(id) implies
            exists|i: int| 0 <= i < rest.len() && (#[trigger] rest[i]).id == id
        by {
            assert(rows.contains_key(id));
            let at: int = choose|i: int| 0 <= i < listing.len() && (#[trigger] listing[i]).id == id;
            assert(rest[at] == listing[at]);
        }
        assert forall|i: int, j: int| 0 <= i < j < rest.len() implies
            (#[trigger] rest[i]).id != (#[trigger] rest[j]).id
        by {
            assert(rest[i] == listing[i] && rest[j] == listing[j]);
        }
        law_listing_counts_rows(rest, fewer);
        assert(rows.dom() =~= fewer.dom().insert(last.id));
    }
}

/// The listing of a store with one row is that one site.
pub proof fn law_single_row_listing(listing: Seq<SiteView>, site: SiteView)
    requires
        lists(listing, Rows::empty().insert(site.id, site.fields)),
    ensures
        listing == seq![site],
{
    let rows = Rows::empty().insert(site.id, site.fields);
    law_listing_counts_rows(listing, rows);
    assert(rows.dom() =~= Set::<SiteId>::empty().insert(site.id));
    assert(holds(rows, listing[0]));
    assert(listing =~= seq![site]);
}

} // verus!
