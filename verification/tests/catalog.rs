//! Catalog assembly and the single-row responders, plus configuration.
use canteen_core::catalog::assemble_catalog;
use canteen_core::catalog::get_location;
use canteen_core::catalog::get_one_location;
use canteen_core::catalog::get_one_store;
use canteen_core::catalog::get_store;
use canteen_core::catalog::require_rows;
use canteen_core::catalog::DbCanteen;
use canteen_core::catalog::DbItem;
use canteen_core::catalog::DbStore;
use canteen_core::catalog::Item;
use canteen_core::catalog::Location;
use canteen_core::catalog::RowOutcome;
use canteen_core::catalog::RowsOutcome;
use canteen_core::config::load;

use bigdecimal::BigDecimal;

fn canteen_row(id: i64, name: &str) -> DbCanteen {
    DbCanteen {
        canteen_id: id,
        canteen_name: name.to_string(),
        latitude: BigDecimal::from(1),
        longitude: BigDecimal::from(2),
        image_url: format!("https://img/{}", id),
    }
}

fn store_row(id: i64, canteen_id: i64, name: &str) -> DbStore {
    DbStore {
        store_id: id,
        canteen_id,
        store_name: name.to_string(),
        is_open: id % 2 == 0,
        cuisine: "noodles".to_string(),
        information: "info".to_string(),
        image_url: format!("https://img/s{}", id),
    }
}

fn item_row(id: i64, store_id: i64, name: &str) -> DbItem {
    DbItem {
        item_id: id,
        store_id,
        item_name: name.to_string(),
        price: BigDecimal::from(id * 10),
        is_available: true,
        information: "desc".to_string(),
        image_url: format!("https://img/i{}", id),
    }
}

#[test]
fn catalog_groups_stores_and_items_under_their_owners() {
    let canteens = vec![canteen_row(1, "North"), canteen_row(2, "South")];
    let stores = vec![
        store_row(10, 1, "Ramen"),
        store_row(11, 2, "Curry"),
        store_row(12, 1, "Salad"),
    ];
    let items = vec![
        item_row(100, 10, "Shoyu"),
        item_row(101, 11, "Katsu"),
        item_row(102, 10, "Miso"),
        item_row(103, 99, "Orphan"),
    ];

    let catalog = assemble_catalog(&canteens, &stores, &items);
    assert_eq!(catalog.len(), 2);

    let north = &catalog[0];
    assert_eq!(north.id, 1);
    assert_eq!(north.name, "North");
    assert_eq!(north.stores.len(), 2);
    assert_eq!(north.stores[0].id, 10);
    assert_eq!(north.stores[0].name, "Ramen");
    assert_eq!(north.stores[0].items.len(), 2);
    assert_eq!(north.stores[0].items[0].name, "Shoyu");
    assert_eq!(north.stores[0].items[1].name, "Miso");
    assert_eq!(north.stores[0].items[0].price, BigDecimal::from(1000));
    assert_eq!(north.stores[1].id, 12);
    assert_eq!(north.stores[1].items.len(), 0);

    let south = &catalog[1];
    assert_eq!(south.id, 2);
    assert_eq!(south.stores.len(), 1);
    assert_eq!(south.stores[0].id, 11);
    assert_eq!(south.stores[0].items.len(), 1);
    assert_eq!(south.stores[0].items[0].name, "Katsu");
}

#[test]
fn empty_rows_give_an_empty_catalog() {
    let catalog = assemble_catalog(&vec![], &vec![], &vec![]);
    assert!(catalog.is_empty());
}

#[test]
fn location_lookup_maps_its_outcomes() {
    let loc = Location {
        id: 1,
        name: "Campus".to_string(),
        latitude: BigDecimal::from(10),
        longitude: BigDecimal::from(20),
    };
    let got = get_location(RowOutcome::Row(loc)).unwrap();
    assert_eq!(got.id, 1);
    assert_eq!(got.name, "Campus");

    let err = get_location(RowOutcome::<Location>::NoRow).unwrap_err();
    assert_eq!(err.status_code(), 404);
    assert_eq!(err.message(), "Location not found");

    let err = get_location(RowOutcome::<Location>::QueryError).unwrap_err();
    assert_eq!(err.status_code(), 500);
    assert_eq!(err.message(), "Database error");
}

#[test]
fn store_lookup_maps_its_outcomes() {
    let got = get_store(RowOutcome::Row(store_row(4, 1, "Ramen"))).unwrap();
    assert_eq!(got.store_id, 4);

    let err = get_store(RowOutcome::<DbStore>::NoRow).unwrap_err();
    assert_eq!(err.status_code(), 404);
    assert_eq!(err.message(), "Store not found");

    let err = get_store(RowOutcome::<DbStore>::QueryError).unwrap_err();
    assert_eq!(err.status_code(), 500);
    assert_eq!(err.message(), "Database error");
}

#[test]
fn single_row_responses_carry_their_parts() {
    let loc = Location {
        id: 3,
        name: "East".to_string(),
        latitude: BigDecimal::from(5),
        longitude: BigDecimal::from(6),
    };
    let response = get_one_location(loc, vec![]);
    assert_eq!(response.id, 3);
    assert_eq!(response.name, "East");
    assert!(response.stores.is_empty());

    let items = vec![Item {
        id: 1,
        name: "Bento".to_string(),
        price: BigDecimal::from(7),
        is_available: true,
        information: "desc".to_string(),
        image_url: "u".to_string(),
    }];
    let response = get_one_store(store_row(8, 1, "Deli"), items);
    assert_eq!(response.id, 8);
    assert_eq!(response.name, "Deli");
    assert_eq!(response.items.len(), 1);
    assert_eq!(response.items[0].name, "Bento");
}

#[test]
fn many_row_queries_map_their_outcomes() {
    let rows = require_rows(RowsOutcome::Rows(vec![item_row(1, 1, "A")])).unwrap();
    assert_eq!(rows.len(), 1);

    let err = require_rows(RowsOutcome::<DbItem>::QueryError).unwrap_err();
    assert_eq!(err.status_code(), 500);
    assert_eq!(err.message(), "Database error");
}

#[test]
fn configuration_defaults_and_requirements() {
    let config = load(
        Some("mysql://localhost/app".to_string()),
        None,
        Some("secret".to_string()),
    )
    .unwrap();
    assert_eq!(config.database_url, "mysql://localhost/app");
    assert_eq!(config.port, 3000);
    assert_eq!(config.hmac_secret, "secret");

    let config = load(
        Some("mysql://localhost/app".to_string()),
        Some("8080".to_string()),
        Some("secret".to_string()),
    )
    .unwrap();
    assert_eq!(config.port, 8080);

    let err = load(None, Some("8080".to_string()), Some("secret".to_string())).unwrap_err();
    assert_eq!(err, "Failed to parse environment variables");
    assert!(load(Some("db".to_string()), None, None).is_err());
}

#[test]
fn malformed_port_is_a_configuration_error() {
    let db = Some("mysql://localhost/app".to_string());
    let secret = Some("secret".to_string());
    for bad in ["", "abc", "80a", "-1", "65536", "999999", " 80"] {
        let r = load(db.clone(), Some(bad.to_string()), secret.clone());
        assert!(r.is_err(), "PORT {:?} must be rejected, not defaulted", bad);
        assert_eq!(r.unwrap_err(), "Failed to parse environment variables");
    }
    for (text, value) in [("0", 0u16), ("80", 80), ("+80", 80), ("0080", 80), ("65535", 65535)] {
        let config =
            load(db.clone(), Some(text.to_string()), secret.clone()).unwrap();
        assert_eq!(config.port, value, "PORT {:?}", text);
        assert_eq!(config.port, text.parse::<u16>().unwrap());
    }
}
