//! The handlers of the site routes, from plain request values to a reply.

use crate::endpoint::{
    internal_server_error, not_found, ok_site, ok_sites, Body, BodyView, NotFoundError, Reply,
    INTERNAL_SERVER_ERROR, OK,
};
use crate::repo::site::{lists, replaced, NewSite, Site, SiteId, SiteView};
use crate::service::{InternalFailure, SiteService};
use vstd::prelude::*;

verus! {

/// The reply to a failed request: status 500 and no body.
fn failed() -> (reply: Reply)
    ensures
        reply@ == internal_server_error(),
{
    Reply { status: INTERNAL_SERVER_ERROR, body: Body::Empty }
}

/// The reply for the outcome of listing: the sites under 200, or 500.
pub fn sites_reply(outcome: Result<Vec<Site>, InternalFailure>) -> (reply: Reply)
    ensures
        reply@ == match outcome {
            Ok(sites) => ok_sites(sites.deep_view()),
            Err(_) => internal_server_error(),
        },
{
    match outcome {
        Ok(sites) => Reply { status: OK, body: Body::Sites(sites) },
        Err(_) => failed(),
    }
}

/// The reply for the outcome of creating: the site under 200, or 500.
pub fn site_reply(outcome: Result<Site, InternalFailure>) -> (reply: Reply)
    ensures
        reply@ == match outcome {
            Ok(site) => ok_site(site@),
            Err(_) => internal_server_error(),
        },
{
    match outcome {
        Ok(site) => Reply { status: OK, body: Body::Site(site) },
        Err(_) => failed(),
    }
}

/// The reply for the outcome of updating or deleting: the site under 200,
/// 404 where there was none, or 500.
pub fn found_reply(outcome: Result<Option<Site>, InternalFailure>) -> (reply: Reply)
    ensures
        reply@ == match outcome {
            Ok(Some(site)) => ok_site(site@),
            Ok(None) => not_found(),
            Err(_) => internal_server_error(),
        },
{
    match outcome {
        Ok(Some(site)) => Reply { status: OK, body: Body::Site(site) },
        Ok(None) => NotFoundError::new().error_response(),
        Err(_) => failed(),
    }
}

/// `GET /sites`: 200 with every site, or 500.
pub fn get_sites<T: SiteService>(service: &T) -> (reply: Reply)
    ensures
        match reply@.body {
            BodyView::Sites(sites) => reply.status == OK && lists(sites, service.sites()),
            _ => reply@ == internal_server_error(),
        },
{
    sites_reply(service.get_sites())
}

/// `POST /sites`: 200 with the created site, or 500.
pub fn create_site<T: SiteService>(service: &mut T, site: NewSite) -> (reply: Reply)
    ensures
        match reply@.body {
            BodyView::Site(created) => {
                &&& reply.status == OK
                &&& created.fields == site@
                &&& created.id != 0
                &&& !old(service).sites().contains_key(created.id)
                &&& final(service).sites() == old(service).sites().insert(created.id, site@)
            },
            _ => reply@ == internal_server_error(),
        },
{
    site_reply(service.create_site(site))
}

/// `PUT /sites/{site_id}`: 200 with the site as replaced, 404 where there is
/// no such site, or 500.
pub fn update_site<T: SiteService>(
    service: &mut T,
    site_id: SiteId,
    site: NewSite,
) -> (reply: Reply)
    ensures
        reply@ == internal_server_error() || {
            &&& final(service).sites() == replaced(old(service).sites(), site_id, site@)
            &&& reply@ == if old(service).sites().contains_key(site_id) {
                ok_site(SiteView { id: site_id, fields: site@ })
            } else {
                not_found()
            }
        },
{
    found_reply(service.update_site(site_id, site))
}

/// `DELETE /sites/{site_id}`: 200 with the site as it was, 404 where there is
/// no such site, or 500.
pub fn delete_site<T: SiteService>(service: &mut T, site_id: SiteId) -> (reply: Reply)
    ensures
        reply@ == internal_server_error() || {
            &&& final(service).sites() == old(service).sites().remove(site_id)
            &&& reply@ == if old(service).sites().contains_key(site_id) {
                ok_site(SiteView { id: site_id, fields: old(service).sites()[site_id] })
            } else {
                not_found()
            }
        },
{
    found_reply(service.delete_site(site_id))
}

} // verus!
