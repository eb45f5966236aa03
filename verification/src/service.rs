//! The service between a transport and the repository interface. It passes
//! field values through untouched; what it owns is the shape of an outcome:
//! a site, the absence of one, or an internal failure.

pub use crate::repo::site::{NewSite, Site, SiteId, SiteRepository};
use crate::repo::site::{found, lists, replaced, Rows, StoreError};
use vstd::prelude::*;

verus! {

/// The one failure a transport ever sees: the store could not do its work.
/// Why it could not stays below the service.
#[derive(Debug, Clone, Copy, PartialEq, Eq)]
pub struct InternalFailure;

/// Turns what a repository answered into what the service answers: an
/// answer passes unchanged, and every store failure, whatever it holds,
/// becomes the same internal failure.
pub fn internal_failure<T>(outcome: Result<T, StoreError>) -> (surfaced: Result<T, InternalFailure>)
    ensures
        surfaced == match outcome {
            Ok(answer) => Ok::<T, InternalFailure>(answer),
            Err(_) => Err::<T, InternalFailure>(InternalFailure),
        },
{
    match outcome {
        Ok(answer) => Ok(answer),
        Err(_) => Err(InternalFailure),
    }
}

/// The use cases a transport can ask for. Each either answers or reports an
/// [`InternalFailure`]; that no site has the identifier asked for is an
/// answer (`None`), never a failure.
///
/// Nothing is promised of the sites after a failure.
pub trait SiteService {
    /// The sites as the service sees them: the fields under each
    /// identifier. The contracts below speak through it and nothing ever
    /// runs it.
    spec fn sites(&self) -> Rows;

    /// Every site, in no particular order.
    fn get_sites(&self) -> (outcome: Result<Vec<Site>, InternalFailure>)
        ensures
            outcome matches Ok(sites) ==> lists(sites.deep_view(), self.sites()),
    ;

    /// Stores a new site. The answer carries the fields as given and an
    /// identifier that the store chose: not zero, and not in use before.
    fn create_site(&mut self, new_site: NewSite) -> (outcome: Result<Site, InternalFailure>)
        ensures
            outcome matches Ok(created) ==> {
                &&& created@.fields == new_site@
                &&& created.id != 0
                &&& !old(self).sites().contains_key(created.id)
                &&& final(self).sites() == old(self).sites().insert(created.id, new_site@)
            },
    ;

    /// Replaces every field of the site under `site_id`. The answer is the
    /// site as it now is, under the same identifier; where there is no such
    /// site the answer is `None` and nothing has changed.
    fn update_site(
        &mut self,
        site_id: SiteId,
        site: NewSite,
    ) -> (outcome: Result<Option<Site>, InternalFailure>)
        ensures
            outcome matches Ok(updated) ==> {
                &&& final(self).sites() == replaced(old(self).sites(), site_id, site@)
                &&& updated.deep_view() == found(final(self).sites(), site_id)
                &&& updated is Some <==> old(self).sites().contains_key(site_id)
                &&& updated is None ==> final(self).sites() == old(self).sites()
            },
    ;

    /// Removes the site under `site_id`. The answer is the site as it was;
    /// where there is no such site the answer is `None` and nothing has
    /// changed.
    fn delete_site(&mut self, site_id: SiteId) -> (outcome: Result<Option<Site>, InternalFailure>)
        ensures
            outcome matches Ok(deleted) ==> {
                &&& final(self).sites() == old(self).sites().remove(site_id)
                &&& deleted.deep_view() == found(old(self).sites(), site_id)
                &&& deleted is Some <==> old(self).sites().contains_key(site_id)
                &&& deleted is None ==> final(self).sites() == old(self).sites()
            },
    ;
}

/// The service over a repository: one repository call per use case.
pub struct SiteServiceImpl<S: SiteRepository> {
    pub site_repo: S,
}

impl<S: SiteRepository + Clone> Clone for SiteServiceImpl<S> {
    /// A service over a copy of the repository.
    fn clone(&self) -> (copy: Self)
        ensures
            cloned::<S>(self.site_repo, copy.site_repo),
    {
        SiteServiceImpl { site_repo: self.site_repo.clone() }
    }
}

/// Each use case is one call of the repository, and its outcome is that
/// call's: the service answers where the repository is bound to answer,
/// reports the internal failure where the repository is bound to fail, and
/// leaves what the repository promises as it found it.
impl<S: SiteRepository> SiteService for SiteServiceImpl<S> {
    open spec fn sites(&self) -> Rows {
        self.site_repo.rows()
    }

    fn get_sites(&self) -> (outcome: Result<Vec<Site>, InternalFailure>)
        ensures
            self.site_repo.promise() is Answer ==> outcome is Ok,
            self.site_repo.promise() is Failure ==>
                outcome == Err::<Vec<Site>, InternalFailure>(InternalFailure),
    {
        internal_failure(self.site_repo.all())
    }

    fn create_site(&mut self, new_site: NewSite) -> (outcome: Result<Site, InternalFailure>)
        ensures
            old(self).site_repo.promise_to_create() is Answer ==> outcome is Ok,
            old(self).site_repo.promise_to_create() is Failure ==>
                outcome == Err::<Site, InternalFailure>(InternalFailure),
            final(self).site_repo.promise() == old(self).site_repo.promise(),
    {
        internal_failure(self.site_repo.create(new_site))
    }

    fn update_site(
        &mut self,
        site_id: SiteId,
        site: NewSite,
    ) -> (outcome: Result<Option<Site>, InternalFailure>)
        ensures
            old(self).site_repo.promise() is Answer ==> outcome is Ok,
            old(self).site_repo.promise() is Failure ==>
                outcome == Err::<Option<Site>, InternalFailure>(InternalFailure),
            final(self).site_repo.promise() == old(self).site_repo.promise(),
            final(self).site_repo.promise_to_create() == old(self).site_repo.promise_to_create(),
    {
        internal_failure(self.site_repo.update(site_id, site))
    }

    fn delete_site(&mut self, site_id: SiteId) -> (outcome: Result<Option<Site>, InternalFailure>)
        ensures
            old(self).site_repo.promise() is Answer ==> outcome is Ok,
            old(self).site_repo.promise() is Failure ==>
                outcome == Err::<Option<Site>, InternalFailure>(InternalFailure),
            final(self).site_repo.promise() == old(self).site_repo.promise(),
            final(self).site_repo.promise_to_create() == old(self).site_repo.promise_to_create(),
    {
        let outcome = self.site_repo.delete(site_id);
        proof {
            if !old(self).site_repo.rows().contains_key(site_id) {
                assert(old(self).site_repo.rows().remove(site_id) =~= old(self).site_repo.rows());
            }
        }
        internal_failure(outcome)
    }
}

} // verus!
