use site_service::endpoint::site::{
    create_site, delete_site, found_reply, get_sites, site_reply, sites_reply, update_site,
};
use site_service::endpoint::{
    Body, NotFoundError, Reply, INTERNAL_SERVER_ERROR, NOT_FOUND, OK,
};
use site_service::infra::memory::MemorySiteRepository;
use site_service::repo::site::{NewSite, Rows, Site, SiteId};
use site_service::service::{InternalFailure, SiteService, SiteServiceImpl};

/// A service that has no sites: listing is empty, updating and deleting
/// find nothing, creating fails.
struct EmptyService;

impl SiteService for EmptyService {
    fn sites(&self) -> Rows {
        unreachable!("the model of the sites is never run")
    }

    fn get_sites(&self) -> Result<Vec<Site>, InternalFailure> {
        Ok(vec![])
    }

    fn create_site(&mut self, _new_site: NewSite) -> Result<Site, InternalFailure> {
        Err(InternalFailure)
    }

    fn update_site(
        &mut self,
        _site_id: SiteId,
        _site: NewSite,
    ) -> Result<Option<Site>, InternalFailure> {
        Ok(None)
    }

    fn delete_site(&mut self, _site_id: SiteId) -> Result<Option<Site>, InternalFailure> {
        Ok(None)
    }
}

fn new_site() -> NewSite {
    NewSite {
        address: "Address".to_string(),
        lat: "59.0".to_string(),
        lng: "58.0".to_string(),
    }
}

fn site(id: SiteId) -> Site {
    Site {
        id,
        address: "Address".to_string(),
        lat: "59.0".to_string(),
        lng: "58.0".to_string(),
    }
}

fn memory_service() -> SiteServiceImpl<MemorySiteRepository> {
    SiteServiceImpl {
        site_repo: MemorySiteRepository::new(),
    }
}

fn empty(status: u16) -> Reply {
    Reply {
        status,
        body: Body::Empty,
    }
}

#[test]
fn test_get_empty_sites() {
    let site_service = EmptyService;

    let resp = get_sites(&site_service);
    assert_eq!(resp.status, OK);
}

#[test]
fn test_update_non_existing_site_returns_404() {
    let mut site_service = EmptyService;

    let site = new_site();
    let resp = update_site(&mut site_service, 3, site);
    assert_eq!(resp.status, NOT_FOUND);
}

#[test]
fn test_delete_non_existing_site_returns_404() {
    let mut site_service = EmptyService;

    let resp = delete_site(&mut site_service, 3);
    assert_eq!(resp.status, NOT_FOUND);
}

#[test]
fn status_codes_are_the_usual_ones() {
    assert_eq!(200, OK);
    assert_eq!(404, NOT_FOUND);
    assert_eq!(500, INTERNAL_SERVER_ERROR);
}

#[test]
fn not_found_error_is_404_without_text_or_body() {
    let error = NotFoundError::new();
    assert_eq!(404, error.status_code());
    assert_eq!("", error.message());
    assert_eq!(empty(404), error.error_response());
}

#[test]
fn listing_outcomes_map_to_200_and_500() {
    assert_eq!(
        Reply {
            status: 200,
            body: Body::Sites(vec![site(1), site(2)]),
        },
        sites_reply(Ok(vec![site(1), site(2)]))
    );
    assert_eq!(
        Reply {
            status: 200,
            body: Body::Sites(vec![]),
        },
        sites_reply(Ok(vec![]))
    );
    assert_eq!(empty(500), sites_reply(Err(InternalFailure)));
}

#[test]
fn creation_outcomes_map_to_200_and_500() {
    assert_eq!(
        Reply {
            status: 200,
            body: Body::Site(site(4)),
        },
        site_reply(Ok(site(4)))
    );
    assert_eq!(empty(500), site_reply(Err(InternalFailure)));
}

#[test]
fn lookup_outcomes_map_to_200_404_and_500() {
    assert_eq!(
        Reply {
            status: 200,
            body: Body::Site(site(4)),
        },
        found_reply(Ok(Some(site(4))))
    );
    assert_eq!(empty(404), found_reply(Ok(None)));
    assert_eq!(empty(500), found_reply(Err(InternalFailure)));
}

#[test]
fn handlers_answer_with_the_site_on_success() {
    let mut service = memory_service();

    let created = create_site(&mut service, new_site());
    assert_eq!(
        Reply {
            status: 200,
            body: Body::Site(site(1)),
        },
        created
    );

    let listed = get_sites(&service);
    assert_eq!(
        Reply {
            status: 200,
            body: Body::Sites(vec![site(1)]),
        },
        listed
    );

    let replaced = Site {
        id: 1,
        address: "New Street".to_string(),
        lat: "1".to_string(),
        lng: "2".to_string(),
    };
    let updated = update_site(
        &mut service,
        1,
        NewSite {
            address: "New Street".to_string(),
            lat: "1".to_string(),
            lng: "2".to_string(),
        },
    );
    assert_eq!(
        Reply {
            status: 200,
            body: Body::Site(replaced.clone()),
        },
        updated
    );

    let deleted = delete_site(&mut service, 1);
    assert_eq!(
        Reply {
            status: 200,
            body: Body::Site(replaced),
        },
        deleted
    );
    assert_eq!(empty(404), delete_site(&mut service, 1));
    assert_eq!(
        Reply {
            status: 200,
            body: Body::Sites(vec![]),
        },
        get_sites(&service)
    );
}

#[test]
fn handlers_answer_404_for_absent_sites() {
    let mut service = memory_service();
    create_site(&mut service, new_site());

    assert_eq!(empty(404), update_site(&mut service, 999, new_site()));
    assert_eq!(empty(404), delete_site(&mut service, 999));
    assert_eq!(
        Reply {
            status: 200,
            body: Body::Sites(vec![site(1)]),
        },
        get_sites(&service)
    );
}

#[test]
fn handlers_answer_500_when_the_store_fails() {
    let mut service = memory_service();
    create_site(&mut service, new_site());
    service.site_repo.set_reachable(false);

    assert_eq!(empty(500), get_sites(&service));
    assert_eq!(empty(500), create_site(&mut service, new_site()));
    assert_eq!(empty(500), update_site(&mut service, 1, new_site()));
    assert_eq!(empty(500), update_site(&mut service, 999, new_site()));
    assert_eq!(empty(500), delete_site(&mut service, 1));
    assert_eq!(empty(500), delete_site(&mut service, 999));
}

#[test]
fn a_failing_service_gives_500_on_create() {
    let mut site_service = EmptyService;
    assert_eq!(empty(500), create_site(&mut site_service, new_site()));
}
