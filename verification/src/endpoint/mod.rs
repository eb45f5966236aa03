//! What a transport sends back: a status code and a body. The service's three
//! outcome shapes map onto them: an answer is 200 with the site or sites as
//! body, absence is 404 and an internal failure is 500, both with no body.

use crate::repo::site::{Site, SiteView};
use vstd::prelude::*;

pub mod site;

verus! {

/// Status of a reply that carries what was asked for.
pub const OK: u16 = 200;

/// Status of a reply to a request for a site that is not there.
pub const NOT_FOUND: u16 = 404;

/// Status of a reply to a request that the store could not serve.
pub const INTERNAL_SERVER_ERROR: u16 = 500;

/// What a reply carries besides its status.
#[derive(Debug, PartialEq, Eq)]
pub enum Body {
    Empty,
    Site(Site),
    Sites(Vec<Site>),
}

/// The mathematical value of a [`Body`].
pub enum BodyView {
    Empty,
    Site(SiteView),
    Sites(Seq<SiteView>),
}

impl View for Body {
    type V = BodyView;

    open spec fn view(&self) -> BodyView {
        match self {
            Body::Empty => BodyView::Empty,
            Body::Site(site) => BodyView::Site(site@),
            Body::Sites(sites) => BodyView::Sites(sites.deep_view()),
        }
    }
}

/// A reply, ready to be written out by a transport.
#[derive(Debug, PartialEq, Eq)]
pub struct Reply {
    pub status: u16,
    pub body: Body,
}

/// The mathematical value of a [`Reply`].
pub struct ReplyView {
    pub status: u16,
    pub body: BodyView,
}

impl View for Reply {
    type V = ReplyView;

    open spec fn view(&self) -> ReplyView {
        ReplyView { status: self.status, body: self.body@ }
    }
}

/// The reply to a request whose site is absent.
pub open spec fn not_found() -> ReplyView {
    ReplyView { status: NOT_FOUND, body: BodyView::Empty }
}

/// The reply to a request that met an internal failure.
pub open spec fn internal_server_error() -> ReplyView {
    ReplyView { status: INTERNAL_SERVER_ERROR, body: BodyView::Empty }
}

/// The reply that hands one site out.
pub open spec fn ok_site(site: SiteView) -> ReplyView {
    ReplyView { status: OK, body: BodyView::Site(site) }
}

/// The reply that hands a listing out.
pub open spec fn ok_sites(sites: Seq<SiteView>) -> ReplyView {
    ReplyView { status: OK, body: BodyView::Sites(sites) }
}

/// The error a handler raises where the site asked for is absent.
#[derive(Debug)]
pub struct NotFoundError();

impl NotFoundError {
    pub fn new() -> (error: Self)
        ensures
            error == NotFoundError(),
    {
        Self()
    }

    /// The text of this error: there is none.
    pub fn message(&self) -> (text: String)
        ensures
            text@ == Seq::<char>::empty(),
    {
        String::new()
    }

    /// Always 404.
    pub fn status_code(&self) -> (status: u16)
        ensures
            status == NOT_FOUND,
    {
        NOT_FOUND
    }

    /// The reply this error stands for: status 404 and no body.
    pub fn error_response(&self) -> (reply: Reply)
        ensures
            reply@ == not_found(),
    {
        Reply { status: self.status_code(), body: Body::Empty }
    }
}

} // verus!
