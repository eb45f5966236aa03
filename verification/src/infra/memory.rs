//! A store that keeps its rows in memory. It stands in for a real store
//! wherever the service is exercised without one, and can be switched to
//! "unreachable" to play a store that fails.

use crate::repo::database::DatabaseUtilRepo;
use crate::repo::site::{
    found, holds, lists, NewSite, Promise, Rows, Site, SiteId, SiteRepository, SiteView,
    StoreError,
};
use vstd::prelude::*;

verus! {

/// Identifiers grow along the listing.
pub open spec fn ascending(listing: Seq<SiteView>) -> bool {
    forall|i: int, j: int|
        0 <= i < j < listing.len() ==> (#[trigger] listing[i]).id < (#[trigger] listing[j]).id
}

/// Some entry of the listing has this identifier.
spec fn occurs(listing: Seq<SiteView>, id: SiteId) -> bool {
    exists|i: int| 0 <= i < listing.len() && (#[trigger] listing[i]).id == id
}

/// Where in the listing the identifier stands.
spec fn place(listing: Seq<SiteView>, id: SiteId) -> int {
    choose|i: int| 0 <= i < listing.len() && (#[trigger] listing[i]).id == id
}

/// The rows that a listing spells out.
spec fn rows_of(listing: Seq<SiteView>) -> Rows {
    Map::new(|id: SiteId| occurs(listing, id), |id: SiteId| listing[place(listing, id)].fields)
}

/// In an ascending listing an identifier stands at one place only, so each
/// entry is the row under its identifier.
proof fn lemma_row_at(listing: Seq<SiteView>, k: int)
    requires
        ascending(listing),
        0 <= k < listing.len(),
    ensures
        occurs(listing, listing[k].id),
        place(listing, listing[k].id) == k,
        found(rows_of(listing), listing[k].id) == Some(listing[k]),
{
    let id: SiteId = listing[k].id;
    let p: int = place(listing, id);
    assert(0 <= p < listing.len() && listing[p].id == id);
    if p < k {
        assert(listing[p].id < listing[k].id);
    } else if k < p {
        assert(listing[k].id < listing[p].id);
    }
}

/// An ascending listing lists its own rows.
proof fn lemma_lists_own_rows(listing: Seq<SiteView>)
    requires
        ascending(listing),
    ensures
        lists(listing, rows_of(listing)),
{
    assert forall|i: int| 0 <= i < listing.len() implies holds(
        rows_of(listing),
        #[trigger] listing[i],
    ) by {
        lemma_row_at(listing, i);
    }
    assert forall|id: SiteId| #[trigger] rows_of(listing).contains_key(id) implies
        exists|i: int| 0 <= i < listing.len() && (#[trigger] listing[i]).id == id
    by {
        assert(occurs(listing, id));
    }
}

/// Taking an entry out of an ascending listing takes its row out, and
/// nothing else.
proof fn lemma_rows_without(listing: Seq<SiteView>, k: int)
    requires
        ascending(listing),
        0 <= k < listing.len(),
    ensures
        ascending(listing.remove(k)),
        rows_of(listing.remove(k)) == rows_of(listing).remove(listing[k].id),
{
    let rest = listing.remove(k);
    assert forall|i: int, j: int| 0 <= i < j < rest.len() implies
        (#[trigger] rest[i]).id < (#[trigger] rest[j]).id
    by {
        let before_i: int = if i < k { i } else { i + 1 };
        let before_j: int = if j < k { j } else { j + 1 };
        assert(rest[i] == listing[before_i] && rest[j] == listing[before_j]);
    }
    assert forall|id: SiteId|
        #[trigger] occurs(rest, id) <==> (occurs(listing, id) && id != listing[k].id)
    by {
        if occurs(rest, id) {
            let i: int = place(rest, id);
            let before: int = if i < k { i } else { i + 1 };
            assert(rest[i] == listing[before]);
            lemma_row_at(listing, before);
            lemma_row_at(listing, k);
        }
        if occurs(listing, id) && id != listing[k].id {
            let i: int = place(listing, id);
            let after: int = if i < k { i } else { i - 1 };
            assert(rest[after] == listing[i]);
        }
    }
    assert forall|id: SiteId| #[trigger] occurs(rest, id) implies
        rows_of(rest)[id] == rows_of(listing)[id]
    by {
        let i: int = place(rest, id);
        let before: int = if i < k { i } else { i + 1 };
        assert(rest[i] == listing[before]);
        lemma_row_at(rest, i);
        lemma_row_at(listing, before);
    }
    assert(rows_of(rest) =~= rows_of(listing).remove(listing[k].id));
}

/// Appending an entry whose identifier lies above all others adds its row,
/// and nothing else.
proof fn lemma_rows_with(listing: Seq<SiteView>, site: SiteView)
    requires
        ascending(listing),
        forall|i: int| 0 <= i < listing.len() ==> (#[trigger] listing[i]).id < site.id,
    ensures
        ascending(listing.push(site)),
        !rows_of(listing).contains_key(site.id),
        rows_of(listing.push(site)) == rows_of(listing).insert(site.id, site.fields),
{
    let more = listing.push(site);
    let last: int = listing.len() as int;
    assert(more[last] == site);
    assert forall|id: SiteId|
        #[trigger] occurs(more, id) <==> (occurs(listing, id) || id == site.id)
    by {
        if occurs(listing, id) {
            let i: int = place(listing, id);
            assert(more[i] == listing[i]);
        }
        if occurs(more, id) && id != site.id {
            let i: int = place(more, id);
            assert(more[i] == listing[i]);
        }
    }
    assert forall|id: SiteId| #[trigger] occurs(more, id) implies
        rows_of(more)[id] == rows_of(listing).insert(site.id, site.fields)[id]
    by {
        let i: int = place(more, id);
        lemma_row_at(more, i);
        if i < last {
            assert(more[i] == listing[i]);
            lemma_row_at(listing, i);
        }
    }
    assert(rows_of(more) =~= rows_of(listing).insert(site.id, site.fields));
}

/// Putting other fields under the identifier of an entry replaces its row,
/// and nothing else.
proof fn lemma_rows_replacing(listing: Seq<SiteView>, k: int, site: SiteView)
    requires
        ascending(listing),
        0 <= k < listing.len(),
        site.id == listing[k].id,
    ensures
        ascending(listing.update(k, site)),
        rows_of(listing.update(k, site)) == rows_of(listing).insert(site.id, site.fields),
{
    let changed = listing.update(k, site);
    assert forall|i: int, j: int| 0 <= i < j < changed.len() implies
        (#[trigger] changed[i]).id < (#[trigger] changed[j]).id
    by {
        assert(changed[i].id == listing[i].id && changed[j].id == listing[j].id);
    }
    assert forall|id: SiteId| #[trigger] occurs(changed, id) <==> occurs(listing, id) by {
        if occurs(changed, id) {
            let i: int = place(changed, id);
            assert(listing[i].id == id);
        }
        if occurs(listing, id) {
            let i: int = place(listing, id);
            assert(changed[i].id == id);
        }
    }
    assert forall|id: SiteId| #[trigger] occurs(changed, id) implies
        rows_of(changed)[id] == rows_of(listing).insert(site.id, site.fields)[id]
    by {
        let i: int = place(changed, id);
        lemma_row_at(changed, i);
        if i != k {
            assert(changed[i] == listing[i]);
            lemma_row_at(listing, i);
        }
    }
    lemma_row_at(listing, k);
    assert(rows_of(changed) =~= rows_of(listing).insert(site.id, site.fields));
}

/// What a failure says while the store is switched off.
pub open spec fn unreachable_detail() -> Seq<char> {
    "the store is unreachable"@
}

/// What a failure says once every identifier has been handed out.
pub open spec fn exhausted_detail() -> Seq<char> {
    "the store has run out of identifiers"@
}

/// Rows kept in a vector, in the order in which they were created.
pub struct MemorySiteRepository {
    sites: Vec<Site>,
    next_id: SiteId,
    reachable: bool,
}

impl MemorySiteRepository {
    #[verifier::type_invariant]
    spec fn well_formed(self) -> bool {
        &&& 1 <= self.next_id
        &&& ascending(self.sites.deep_view())
        &&& forall|i: int|
            0 <= i < self.sites.deep_view().len() ==>
                1 <= (#[trigger] self.sites.deep_view()[i]).id < self.next_id
    }

    /// Whether the store answers. While it does not, every operation of the
    /// repository interface fails and changes nothing.
    pub closed spec fn reachable(&self) -> bool {
        self.reachable
    }

    /// The identifier that the next created site gets.
    pub closed spec fn next_id(&self) -> SiteId {
        self.next_id
    }

    /// An empty, reachable store whose first site gets the identifier 1.
    pub fn new() -> (store: Self)
        ensures
            store.rows() == Rows::empty(),
            store.reachable(),
            store.next_id() == 1,
    {
        let store = MemorySiteRepository { sites: Vec::new(), next_id: 1, reachable: true };
        assert(store.rows() =~= Rows::empty());
        store
    }

    /// An empty, reachable store whose first site gets the identifier
    /// `first_id`; `None` where that is below 1.
    pub fn starting_at(first_id: SiteId) -> (made: Option<Self>)
        ensures
            made is Some <==> 1 <= first_id,
            made matches Some(store) ==> {
                &&& store.rows() == Rows::empty()
                &&& store.reachable()
                &&& store.next_id() == first_id
            },
    {
        if first_id < 1 {
            return None;
        }
        let store = MemorySiteRepository { sites: Vec::new(), next_id: first_id, reachable: true };
        assert(store.rows() =~= Rows::empty());
        Some(store)
    }

    /// Switches the store on or off. The rows stay as they are.
    pub fn set_reachable(&mut self, reachable: bool)
        ensures
            final(self).reachable() == reachable,
            final(self).rows() == old(self).rows(),
            final(self).next_id() == old(self).next_id(),
    {
        proof {
            use_type_invariant(&*self);
        }
        self.reachable = reachable;
    }

    /// Where the site with this identifier stands, if it is stored.
    fn position(&self, id: SiteId) -> (at: Option<usize>)
        ensures
            match at {
                Some(k) => k < self.sites@.len() && self.sites.deep_view()[k as int].id == id,
                None => !occurs(self.sites.deep_view(), id),
            },
    {
        let mut k: usize = 0;
        while k < self.sites.len()
            invariant
                k <= self.sites@.len(),
                forall|i: int| 0 <= i < k ==> (#[trigger] self.sites.deep_view()[i]).id != id,
            decreases self.sites@.len() - k,
        {
            if self.sites[k].id == id {
                return Some(k);
            }
            k += 1;
        }
        None
    }

    /// The failure that every operation reports while the store is switched off.
    fn unreachable() -> (error: StoreError)
        ensures
            error.detail@ == unreachable_detail(),
    {
        StoreError::new("the store is unreachable".to_owned())
    }
}

impl SiteRepository for MemorySiteRepository {
    closed spec fn rows(&self) -> Rows {
        rows_of(self.sites.deep_view())
    }

    /// The store answers while it is reachable and fails while it is not.
    open spec fn promise(&self) -> Promise {
        if self.reachable() {
            Promise::Answer
        } else {
            Promise::Failure
        }
    }

    /// The store creates while it is reachable and has an identifier left,
    /// and fails otherwise.
    open spec fn promise_to_create(&self) -> Promise {
        if self.reachable() && self.next_id() < SiteId::MAX {
            Promise::Answer
        } else {
            Promise::Failure
        }
    }

    fn get(&self, id: SiteId) -> (outcome: Result<Option<Site>, StoreError>)
        ensures
            outcome is Ok <==> self.reachable(),
            outcome matches Ok(Some(site)) ==> 1 <= site.id < self.next_id(),
            outcome matches Err(error) ==> error.detail@ == unreachable_detail(),
    {
        if !self.reachable {
            return Err(Self::unreachable());
        }
        proof {
            use_type_invariant(self);
        }
        match self.position(id) {
            Some(k) => {
                proof {
                    lemma_row_at(self.sites.deep_view(), k as int);
                }
                Ok(Some(self.sites[k].clone()))
            },
            None => Ok(None),
        }
    }

    fn all(&self) -> (outcome: Result<Vec<Site>, StoreError>)
        ensures
            outcome is Ok <==> self.reachable(),
            outcome matches Ok(sites) ==> {
                &&& ascending(sites.deep_view())
                &&& forall|i: int|
                    0 <= i < sites.len() ==>
                        1 <= (#[trigger] sites.deep_view()[i]).id < self.next_id()
            },
            outcome matches Err(error) ==> error.detail@ == unreachable_detail(),
    {
        if !self.reachable {
            return Err(Self::unreachable());
        }
        let mut sites: Vec<Site> = Vec::new();
        let mut k: usize = 0;
        while k < self.sites.len()
            invariant
                k <= self.sites@.len(),
                sites@.len() == k,
                forall|i: int| 0 <= i < k ==> (#[trigger] sites@[i])@ == self.sites@[i]@,
            decreases self.sites@.len() - k,
        {
            sites.push(self.sites[k].clone());
            k += 1;
        }
        proof {
            use_type_invariant(self);
            assert(sites.deep_view() =~= self.sites.deep_view());
            lemma_lists_own_rows(self.sites.deep_view());
        }
        Ok(sites)
    }

    fn delete(&mut self, id: SiteId) -> (outcome: Result<Option<Site>, StoreError>)
        ensures
            outcome is Ok <==> old(self).reachable(),
            outcome matches Err(error) ==> {
                &&& error.detail@ == unreachable_detail()
                &&& *final(self) == *old(self)
            },
            final(self).reachable() == old(self).reachable(),
            final(self).next_id() == old(self).next_id(),
    {
        if !self.reachable {
            return Err(Self::unreachable());
        }
        proof {
            use_type_invariant(&*self);
        }
        match self.position(id) {
            Some(k) => {
                let ghost before = self.sites.deep_view();
                proof {
                    lemma_row_at(before, k as int);
                    lemma_rows_without(before, k as int);
                }
                let mut sites: Vec<Site> = Vec::new();
                core::mem::swap(&mut self.sites, &mut sites);
                let site = sites.remove(k);
                assert(sites.deep_view() =~= before.remove(k as int));
                self.sites = sites;
                Ok(Some(site))
            },
            None => {
                assert(self.rows().remove(id) =~= self.rows());
                Ok(None)
            },
        }
    }

    fn create(&mut self, site: NewSite) -> (outcome: Result<Site, StoreError>)
        ensures
            outcome is Ok <==> old(self).reachable() && old(self).next_id() < SiteId::MAX,
            outcome matches Ok(created) ==> {
                &&& created.id == old(self).next_id()
                &&& final(self).next_id() == old(self).next_id() + 1
            },
            outcome matches Err(error) ==> {
                &&& *final(self) == *old(self)
                &&& old(self).reachable() ==> error.detail@ == exhausted_detail()
                &&& !old(self).reachable() ==> error.detail@ == unreachable_detail()
            },
            final(self).reachable() == old(self).reachable(),
    {
        if !self.reachable {
            return Err(Self::unreachable());
        }
        if self.next_id == SiteId::MAX {
            return Err(StoreError::new("the store has run out of identifiers".to_owned()));
        }
        proof {
            use_type_invariant(&*self);
        }
        let id: SiteId = self.next_id;
        let stored = Site { id, address: site.address, lat: site.lat, lng: site.lng };
        let created = stored.clone();
        let ghost before = self.sites.deep_view();
        proof {
            lemma_rows_with(before, stored@);
        }
        let mut sites: Vec<Site> = Vec::new();
        core::mem::swap(&mut self.sites, &mut sites);
        self.next_id = id + 1;
        sites.push(stored);
        assert(sites.deep_view() =~= before.push(created@));
        self.sites = sites;
        Ok(created)
    }

    fn update(&mut self, id: SiteId, site: NewSite) -> (outcome: Result<Option<Site>, StoreError>)
        ensures
            outcome is Ok <==> old(self).reachable(),
            outcome matches Err(error) ==> {
                &&& error.detail@ == unreachable_detail()
                &&& *final(self) == *old(self)
            },
            final(self).reachable() == old(self).reachable(),
            final(self).next_id() == old(self).next_id(),
    {
        if !self.reachable {
            return Err(Self::unreachable());
        }
        proof {
            use_type_invariant(&*self);
        }
        match self.position(id) {
            Some(k) => {
                let stored = Site { id, address: site.address, lat: site.lat, lng: site.lng };
                let updated = stored.clone();
                let ghost before = self.sites.deep_view();
                proof {
                    lemma_row_at(before, k as int);
                    lemma_rows_replacing(before, k as int, stored@);
                }
                let mut sites: Vec<Site> = Vec::new();
                core::mem::swap(&mut self.sites, &mut sites);
                sites.set(k, stored);
                assert(sites.deep_view() =~= before.update(k as int, updated@));
                self.sites = sites;
                Ok(Some(updated))
            },
            None => Ok(None),
        }
    }
}

impl DatabaseUtilRepo for MemorySiteRepository {
    fn alive(&self) -> (answering: bool)
        ensures
            answering == self.reachable(),
    {
        self.reachable
    }
}

} // verus!
