//! Site records and the repository interface that stores them.

use vstd::prelude::*;

verus! {

/// Identifier of a stored site. The store assigns it on creation and it never
/// changes afterwards.
pub type SiteId = i32;

/// A stored site.
#[derive(Debug, PartialEq, Eq)]
pub struct Site {
    pub id: SiteId,
    pub address: String,
    pub lat: String,
    pub lng: String,
}

/// What a caller supplies to create a site or to replace one: every field of
/// a site but the identifier.
#[derive(Debug, PartialEq, Eq)]
pub struct NewSite {
    pub address: String,
    pub lat: String,
    pub lng: String,
}

/// The mathematical value of a [`NewSite`]: three uninterpreted texts.
pub struct SiteFields {
    pub address: Seq<char>,
    pub lat: Seq<char>,
    pub lng: Seq<char>,
}

/// The mathematical value of a [`Site`]: an identifier and the fields
/// stored under it.
pub struct SiteView {
    pub id: SiteId,
    pub fields: SiteFields,
}

impl View for NewSite {
    type V = SiteFields;

    open spec fn view(&self) -> SiteFields {
        SiteFields { address: self.address@, lat: self.lat@, lng: self.lng@ }
    }
}

impl DeepView for NewSite {
    type V = SiteFields;

    open spec fn deep_view(&self) -> SiteFields {
        self@
    }
}

impl View for Site {
    type V = SiteView;

    open spec fn view(&self) -> SiteView {
        SiteView {
            id: self.id,
            fields: SiteFields { address: self.address@, lat: self.lat@, lng: self.lng@ },
        }
    }
}

impl DeepView for Site {
    type V = SiteView;

    open spec fn deep_view(&self) -> SiteView {
        self@
    }
}

impl Clone for NewSite {
    fn clone(&self) -> (copy: Self)
        ensures
            copy@ == self@,
    {
        NewSite { address: self.address.clone(), lat: self.lat.clone(), lng: self.lng.clone() }
    }
}

impl Clone for Site {
    fn clone(&self) -> (copy: Self)
        ensures
            copy@ == self@,
    {
        Site {
            id: self.id,
            address: self.address.clone(),
            lat: self.lat.clone(),
            lng: self.lng.clone(),
        }
    }
}

/// A failure of the backing store: anything that went wrong other than "no
/// row matched". It says nothing of which store was behind the interface.
#[derive(Debug, PartialEq, Eq)]
pub struct StoreError {
    pub detail: String,
}

impl StoreError {
    pub fn new(detail: String) -> (error: Self)
        ensures
            error.detail@ == detail@,
    {
        StoreError { detail }
    }
}

/// The contents of a store: the fields kept under each identifier in use.
pub type Rows = Map<SiteId, SiteFields>;

/// The site stored under `id`, or `None` where no row has that identifier.
pub open spec fn found(rows: Rows, id: SiteId) -> Option<SiteView> {
    if rows.contains_key(id) {
        Some(SiteView { id, fields: rows[id] })
    } else {
        None
    }
}

/// The rows after the fields under `id` are replaced wholesale. Where no row
/// has that identifier nothing changes: replacing never adds a row.
pub open spec fn replaced(rows: Rows, id: SiteId, fields: SiteFields) -> Rows {
    if rows.contains_key(id) {
        rows.insert(id, fields)
    } else {
        rows
    }
}

/// `site` is a row of the store, under its own identifier.
pub open spec fn holds(rows: Rows, site: SiteView) -> bool {
    rows.contains_key(site.id) && rows[site.id] == site.fields
}

/// `listing` is the whole store, each row once, in some order.
pub open spec fn lists(listing: Seq<SiteView>, rows: Rows) -> bool {
    &&& forall|i: int| 0 <= i < listing.len() ==> holds(rows, #[trigger] listing[i])
    &&& forall|i: int, j: int|
        0 <= i < j < listing.len() ==> (#[trigger] listing[i]).id != (#[trigger] listing[j]).id
    &&& forall|id: SiteId|
        #[trigger] rows.contains_key(id) ==>
            exists|i: int| 0 <= i < listing.len() && (#[trigger] listing[i]).id == id
}

/// What a store is known beforehand to do with its next request.
pub enum Promise {
    /// It answers.
    Answer,
    /// It fails.
    Failure,
    /// It may do either.
    Nothing,
}

/// The persistence contract. A store keeps rows under identifiers that it
/// assigns itself; every operation either answers or fails with a
/// [`StoreError`], and "no row matched" is an answer, never a failure.
///
/// Whether an operation answers or fails is the store's to decide. A store
/// that knows beforehand says so through `promise` and `promise_to_create`,
/// and is held to it; a store across a network knows nothing beforehand
/// and promises nothing. No operation changes what the store promises,
/// but that a creation may use up what the next one needs. Nothing is
/// promised of the rows after a failure.
pub trait SiteRepository {
    /// The rows currently kept. The contracts below speak through it and
    /// nothing ever runs it: a store whose rows live elsewhere has no body
    /// to give it that could be run.
    spec fn rows(&self) -> Rows;

    /// What the store is known to do with its next lookup, listing, update
    /// or deletion. Nothing, unless the store says otherwise.
    open spec fn promise(&self) -> Promise {
        Promise::Nothing
    }

    /// What the store is known to do with its next creation. Nothing,
    /// unless the store says otherwise.
    open spec fn promise_to_create(&self) -> Promise {
        Promise::Nothing
    }

    /// Looks one site up by its identifier.
    fn get(&self, id: SiteId) -> (outcome: Result<Option<Site>, StoreError>)
        ensures
            self.promise() is Answer ==> outcome is Ok,
            self.promise() is Failure ==> outcome is Err,
            outcome matches Ok(site) ==> site.deep_view() == found(self.rows(), id),
    ;

    /// Every stored site, in an order of the store's choosing.
    fn all(&self) -> (outcome: Result<Vec<Site>, StoreError>)
        ensures
            self.promise() is Answer ==> outcome is Ok,
            self.promise() is Failure ==> outcome is Err,
            outcome matches Ok(sites) ==> lists(sites.deep_view(), self.rows()),
    ;

    /// Removes the row under `id` and answers with the site as it was.
    fn delete(&mut self, id: SiteId) -> (outcome: Result<Option<Site>, StoreError>)
        ensures
            old(self).promise() is Answer ==> outcome is Ok,
            old(self).promise() is Failure ==> outcome is Err,
            final(self).promise() == old(self).promise(),
            final(self).promise_to_create() == old(self).promise_to_create(),
            outcome matches Ok(site) ==> {
                &&& site.deep_view() == found(old(self).rows(), id)
                &&& final(self).rows() == old(self).rows().remove(id)
            },
    ;

    /// Adds a row holding `site` under an identifier that was not in use and
    /// is not zero, and answers with the stored site.
    fn create(&mut self, site: NewSite) -> (outcome: Result<Site, StoreError>)
        ensures
            old(self).promise_to_create() is Answer ==> outcome is Ok,
            old(self).promise_to_create() is Failure ==> outcome is Err,
            final(self).promise() == old(self).promise(),
            outcome matches Ok(created) ==> {
                &&& created@.fields == site@
                &&& created.id != 0
                &&& !old(self).rows().contains_key(created.id)
                &&& final(self).rows() == old(self).rows().insert(created.id, site@)
            },
    ;

    /// Replaces the fields under `id` by `site` and answers with the site as
    /// it now is; where no row has that identifier, changes nothing and
    /// answers `None`.
    fn update(&mut self, id: SiteId, site: NewSite) -> (outcome: Result<Option<Site>, StoreError>)
        ensures
            old(self).promise() is Answer ==> outcome is Ok,
            old(self).promise() is Failure ==> outcome is Err,
            final(self).promise() == old(self).promise(),
            final(self).promise_to_create() == old(self).promise_to_create(),
            outcome matches Ok(updated) ==> {
                &&& final(self).rows() == replaced(old(self).rows(), id, site@)
                &&& updated.deep_view() == found(final(self).rows(), id)
            },
    ;
}

} // verus!
