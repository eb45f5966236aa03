use site_service::infra::memory::MemorySiteRepository;
use site_service::repo::site::{NewSite, Rows, Site, SiteId, SiteRepository, StoreError};
use site_service::service::{internal_failure, InternalFailure, SiteService, SiteServiceImpl};

/// A repository that answers `all` with two canned sites and fails
/// everything else.
struct CannedRepository;

fn canned(id: SiteId) -> Site {
    Site {
        id,
        address: "Address".to_string(),
        lat: "59.0".to_string(),
        lng: "58.0".to_string(),
    }
}

fn refused<T>() -> Result<T, StoreError> {
    Err(StoreError::new("store unreachable".to_string()))
}

impl SiteRepository for CannedRepository {
    fn rows(&self) -> Rows {
        unreachable!("the model of the rows is never run")
    }

    fn get(&self, _id: SiteId) -> Result<Option<Site>, StoreError> {
        refused()
    }

    fn all(&self) -> Result<Vec<Site>, StoreError> {
        Ok(vec![canned(0), canned(1)])
    }

    fn delete(&mut self, _id: SiteId) -> Result<Option<Site>, StoreError> {
        refused()
    }

    fn create(&mut self, _site: NewSite) -> Result<Site, StoreError> {
        refused()
    }

    fn update(&mut self, _id: SiteId, _site: NewSite) -> Result<Option<Site>, StoreError> {
        refused()
    }
}

fn street_1() -> NewSite {
    NewSite {
        address: "Street 1".to_string(),
        lat: "59".to_string(),
        lng: "58".to_string(),
    }
}

fn memory_service() -> SiteServiceImpl<MemorySiteRepository> {
    SiteServiceImpl {
        site_repo: MemorySiteRepository::new(),
    }
}

#[test]
fn mod_test_get_sites() {
    let service = SiteServiceImpl {
        site_repo: CannedRepository,
    };

    let sites = service.get_sites().unwrap();
    assert_eq!(2, sites.len());
    assert_eq!(0, sites[0].id);
    assert_eq!(1, sites[1].id);
}

#[test]
fn create_then_list_gives_exactly_that_site() {
    let mut service = memory_service();

    let created = service.create_site(street_1()).unwrap();
    assert_eq!(
        Site {
            id: 1,
            address: "Street 1".to_string(),
            lat: "59".to_string(),
            lng: "58".to_string(),
        },
        created
    );
    assert_eq!(vec![created], service.get_sites().unwrap());
}

#[test]
fn update_on_an_empty_store_is_absence() {
    let mut service = memory_service();

    let outcome = service.update_site(999, street_1());
    assert_eq!(Ok(None), outcome);
    assert_eq!(Ok(Vec::new()), service.get_sites());
}

#[test]
fn delete_twice_gives_the_site_and_then_absence() {
    let mut service = memory_service();
    let created = service.create_site(street_1()).unwrap();

    assert_eq!(Ok(Some(created.clone())), service.delete_site(created.id));
    assert_eq!(Ok(None), service.delete_site(created.id));
    assert_eq!(Ok(Vec::new()), service.get_sites());
}

#[test]
fn create_failure_surfaces_as_internal_failure() {
    let mut service = SiteServiceImpl {
        site_repo: CannedRepository,
    };
    assert_eq!(Err(InternalFailure), service.create_site(street_1()));

    let mut service = memory_service();
    service.site_repo.set_reachable(false);
    assert_eq!(Err(InternalFailure), service.create_site(street_1()));
}

#[test]
fn every_store_failure_surfaces_as_internal_failure() {
    let mut service = memory_service();
    let created = service.create_site(street_1()).unwrap();
    service.site_repo.set_reachable(false);

    assert_eq!(Err(InternalFailure), service.get_sites());
    assert_eq!(Err(InternalFailure), service.create_site(street_1()));
    assert_eq!(Err(InternalFailure), service.update_site(created.id, street_1()));
    assert_eq!(Err(InternalFailure), service.update_site(999, street_1()));
    assert_eq!(Err(InternalFailure), service.delete_site(created.id));
    assert_eq!(Err(InternalFailure), service.delete_site(999));

    service.site_repo.set_reachable(true);
    assert_eq!(Ok(vec![created]), service.get_sites());
}

#[test]
fn internal_failure_keeps_answers_and_drops_details() {
    assert_eq!(Ok(5), internal_failure::<i32>(Ok(5)));
    assert_eq!(
        Ok(Some(canned(3))),
        internal_failure(Ok(Some(canned(3))))
    );
    assert_eq!(Ok(None), internal_failure::<Option<Site>>(Ok(None)));
    assert_eq!(
        Err(InternalFailure),
        internal_failure::<Site>(Err(StoreError::new("connection refused".to_string())))
    );
    assert_eq!(
        Err(InternalFailure),
        internal_failure::<Site>(Err(StoreError::new(String::new())))
    );
}

#[test]
fn created_site_has_the_fields_given_and_a_fresh_identifier() {
    let mut service = memory_service();
    let mut seen: Vec<SiteId> = Vec::new();
    for (address, lat, lng) in [("a", "1", "2"), ("", "", ""), ("Street 1", "59", "58")] {
        let created = service
            .create_site(NewSite {
                address: address.to_string(),
                lat: lat.to_string(),
                lng: lng.to_string(),
            })
            .unwrap();
        assert_eq!(address, created.address);
        assert_eq!(lat, created.lat);
        assert_eq!(lng, created.lng);
        assert_ne!(0, created.id);
        assert!(!seen.contains(&created.id));
        seen.push(created.id);
    }
    assert_eq!(vec![1, 2, 3], seen);
}

#[test]
fn absent_identifiers_give_absence_and_no_effect() {
    let mut service = memory_service();
    let created = service.create_site(street_1()).unwrap();

    for id in [0, -1, 2, 999, i32::MAX, i32::MIN] {
        assert_eq!(Ok(None), service.update_site(id, street_1()));
        assert_eq!(Ok(None), service.delete_site(id));
        assert_eq!(Ok(vec![created.clone()]), service.get_sites());
    }
}

#[test]
fn an_updated_site_is_read_back_with_its_new_fields() {
    let mut service = memory_service();
    let other = service.create_site(street_1()).unwrap();
    let created = service.create_site(street_1()).unwrap();

    let updated = service
        .update_site(
            created.id,
            NewSite {
                address: "Street 2".to_string(),
                lat: "60".to_string(),
                lng: "57".to_string(),
            },
        )
        .unwrap()
        .unwrap();
    let expected = Site {
        id: created.id,
        address: "Street 2".to_string(),
        lat: "60".to_string(),
        lng: "57".to_string(),
    };
    assert_eq!(expected, updated);
    assert_eq!(Ok(vec![other, expected.clone()]), service.get_sites());
    assert_eq!(Ok(Some(expected)), service.site_repo.get(created.id));
}

#[test]
fn a_deleted_site_is_gone_from_listing_and_lookup() {
    let mut service = memory_service();
    let kept = service.create_site(street_1()).unwrap();
    let created = service.create_site(street_1()).unwrap();

    assert_eq!(Ok(Some(created.clone())), service.delete_site(created.id));
    assert_eq!(Ok(vec![kept]), service.get_sites());
    assert_eq!(Ok(None), service.site_repo.get(created.id));
}
