//! The data catalog: canteens, their stores, and the stores' items, grouped
//! from the three flat row sets the store returns, plus the single-location
//! and single-store responses.
use vstd::prelude::*;

use bigdecimal::BigDecimal;

use crate::error::ApiError;
use crate::outside::bigdecimal_clone;

verus! {

/// A canteen row.
#[derive(Debug)]
pub struct DbCanteen {
    pub canteen_id: i64,
    pub canteen_name: String,
    pub latitude: BigDecimal,
    pub longitude: BigDecimal,
    pub image_url: String,
}

/// A store row.
#[derive(Debug)]
pub struct DbStore {
    pub store_id: i64,
    pub canteen_id: i64,
    pub store_name: String,
    pub is_open: bool,
    pub cuisine: String,
    pub information: String,
    pub image_url: String,
}

/// An item row.
#[derive(Debug)]
pub struct DbItem {
    pub item_id: i64,
    pub store_id: i64,
    pub item_name: String,
    pub price: BigDecimal,
    pub is_available: bool,
    pub information: String,
    pub image_url: String,
}

/// An item as clients see it.
#[derive(Debug)]
pub struct Item {
    pub id: i64,
    pub name: String,
    pub price: BigDecimal,
    pub is_available: bool,
    pub information: String,
    pub image_url: String,
}

/// A store with its items.
#[derive(Debug)]
pub struct Store {
    pub id: i64,
    pub name: String,
    pub is_open: bool,
    pub cuisine: String,
    pub information: String,
    pub image_url: String,
    pub items: Vec<Item>,
}

/// A canteen with its stores.
#[derive(Debug)]
pub struct Canteen {
    pub id: i64,
    pub name: String,
    pub latitude: BigDecimal,
    pub longitude: BigDecimal,
    pub image_url: String,
    pub stores: Vec<Store>,
}

/// The client shape of an item row.
pub open spec fn item_of(d: DbItem) -> Item {
    Item {
        id: d.item_id,
        name: d.item_name,
        price: d.price,
        is_available: d.is_available,
        information: d.information,
        image_url: d.image_url,
    }
}

/// The items of one store, in row order.
pub open spec fn spec_items_for(items: Seq<DbItem>, store_id: i64) -> Seq<Item>
    decreases items.len(),
{
    if items.len() == 0 {
        Seq::empty()
    } else {
        let rest = spec_items_for(items.drop_last(), store_id);
        if items.last().store_id == store_id {
            rest.push(item_of(items.last()))
        } else {
            rest
        }
    }
}

/// The store rows of one canteen, in row order.
pub open spec fn spec_stores_for(stores: Seq<DbStore>, canteen_id: i64) -> Seq<DbStore>
    decreases stores.len(),
{
    if stores.len() == 0 {
        Seq::empty()
    } else {
        let rest = spec_stores_for(stores.drop_last(), canteen_id);
        if stores.last().canteen_id == canteen_id {
            rest.push(stores.last())
        } else {
            rest
        }
    }
}

/// Whether a built store reproduces its row, with exactly that store's
/// items.
pub open spec fn store_matches(s: Store, d: DbStore, items: Seq<DbItem>) -> bool {
    &&& s.id == d.store_id
    &&& s.name == d.store_name
    &&& s.is_open == d.is_open
    &&& s.cuisine == d.cuisine
    &&& s.information == d.information
    &&& s.image_url == d.image_url
    &&& s.items@ == spec_items_for(items, d.store_id)
}

/// Whether a built canteen reproduces its row, with exactly that canteen's
/// stores in row order.
pub open spec fn canteen_matches(
    c: Canteen,
    d: DbCanteen,
    stores: Seq<DbStore>,
    items: Seq<DbItem>,
) -> bool {
    &&& c.id == d.canteen_id
    &&& c.name == d.canteen_name
    &&& c.latitude == d.latitude
    &&& c.longitude == d.longitude
    &&& c.image_url == d.image_url
    &&& c.stores@.len() == spec_stores_for(stores, d.canteen_id).len()
    &&& forall|j: int|
        0 <= j < c.stores@.len() ==> store_matches(
            #[trigger] c.stores@[j],
            spec_stores_for(stores, d.canteen_id)[j],
            items,
        )
}

/// The items of one store, built from the flat item rows.
fn collect_items(items: &Vec<DbItem>, store_id: i64) -> (out: Vec<Item>)
    ensures
        out@ == spec_items_for(items@, store_id),
{
    let mut out: Vec<Item> = Vec::new();
    let mut k: usize = 0;
    proof {
        assert(items@.take(0) =~= Seq::<DbItem>::empty());
    }
    while k < items.len()
        invariant
            k <= items@.len(),
            out@ == spec_items_for(items@.take(k as int), store_id),
        decreases items@.len() - k,
    {
        proof {
            assert(items@.take(k + 1).drop_last() =~= items@.take(k as int));
            assert(items@.take(k + 1).last() == items@[k as int]);
        }
        if items[k].store_id == store_id {
            let d = &items[k];
            let it = Item {
                id: d.item_id,
                name: d.item_name.clone(),
                price: bigdecimal_clone(&d.price),
                is_available: d.is_available,
                information: d.information.clone(),
                image_url: d.image_url.clone(),
            };
            proof {
                assert(it == item_of(items@[k as int]));
            }
            out.push(it);
        }
        k = k + 1;
    }
    proof {
        assert(items@.take(items@.len() as int) =~= items@);
    }
    out
}

/// The stores of one canteen, each with its items.
fn collect_stores(stores: &Vec<DbStore>, items: &Vec<DbItem>, canteen_id: i64) -> (out: Vec<Store>)
    ensures
        out@.len() == spec_stores_for(stores@, canteen_id).len(),
        forall|j: int|
            0 <= j < out@.len() ==> store_matches(
                #[trigger] out@[j],
                spec_stores_for(stores@, canteen_id)[j],
                items@,
            ),
{
    let mut out: Vec<Store> = Vec::new();
    let mut j: usize = 0;
    proof {
        assert(stores@.take(0) =~= Seq::<DbStore>::empty());
    }
    while j < stores.len()
        invariant
            j <= stores@.len(),
            out@.len() == spec_stores_for(stores@.take(j as int), canteen_id).len(),
            forall|t: int|
                0 <= t < out@.len() ==> store_matches(
                    #[trigger] out@[t],
                    spec_stores_for(stores@.take(j as int), canteen_id)[t],
                    items@,
                ),
        decreases stores@.len() - j,
    {
        proof {
            assert(stores@.take(j + 1).drop_last() =~= stores@.take(j as int));
            assert(stores@.take(j + 1).last() == stores@[j as int]);
        }
        if stores[j].canteen_id == canteen_id {
            let d = &stores[j];
            let s = Store {
                id: d.store_id,
                name: d.store_name.clone(),
                is_open: d.is_open,
                cuisine: d.cuisine.clone(),
                information: d.information.clone(),
                image_url: d.image_url.clone(),
                items: collect_items(items, d.store_id),
            };
            proof {
                assert(store_matches(s, stores@[j as int], items@));
            }
            out.push(s);
        }
        j = j + 1;
    }
    proof {
        assert(stores@.take(stores@.len() as int) =~= stores@);
    }
    out
}

/// Groups the three flat row sets into the nested catalog: one entry per
/// canteen row in order, each holding its stores, each store its items.
pub fn assemble_catalog(canteens: &Vec<DbCanteen>, stores: &Vec<DbStore>, items: &Vec<DbItem>) -> (r:
    Vec<Canteen>)
    ensures
        r@.len() == canteens@.len(),
        forall|i: int|
            0 <= i < r@.len() ==> canteen_matches(#[trigger] r@[i], canteens@[i], stores@, items@),
{
    let mut out: Vec<Canteen> = Vec::new();
    let mut i: usize = 0;
    while i < canteens.len()
        invariant
            i <= canteens@.len(),
            out@.len() == i,
            forall|t: int|
                0 <= t < i ==> canteen_matches(#[trigger] out@[t], canteens@[t], stores@, items@),
        decreases canteens@.len() - i,
    {
        let d = &canteens[i];
        let c = Canteen {
            id: d.canteen_id,
            name: d.canteen_name.clone(),
            latitude: bigdecimal_clone(&d.latitude),
            longitude: bigdecimal_clone(&d.longitude),
            image_url: d.image_url.clone(),
            stores: collect_stores(stores, items, d.canteen_id),
        };
        proof {
            assert(canteen_matches(c, canteens@[i as int], stores@, items@));
        }
        out.push(c);
        i = i + 1;
    }
    out
}

/// A location row, as the single-location route reads it.
#[derive(Debug)]
pub struct Location {
    pub id: i64,
    pub name: String,
    pub latitude: BigDecimal,
    pub longitude: BigDecimal,
}

/// What a single-row query answered.
pub enum RowOutcome<T> {
    Row(T),
    NoRow,
    QueryError,
}

/// Maps the location lookup: a missing row is the client's "not found",
/// anything else stays internal.
pub fn get_location(outcome: RowOutcome<Location>) -> (r: Result<Location, ApiError>)
    ensures
        match outcome {
            RowOutcome::Row(l) => r matches Ok(v) && v == l,
            RowOutcome::NoRow => r matches Err(e) && e.spec_status() == 404 && e.spec_message()
                == "Location not found"@,
            RowOutcome::QueryError => r matches Err(e) && e.spec_status() == 500
                && e.spec_message() == "Database error"@,
        },
{
    match outcome {
        RowOutcome::Row(l) => Ok(l),
        RowOutcome::NoRow => Err(ApiError::NotFound("Location not found")),
        RowOutcome::QueryError => Err(ApiError::Internal("Database error")),
    }
}

/// Maps the store lookup of the single-store route.
pub fn get_store(outcome: RowOutcome<DbStore>) -> (r: Result<DbStore, ApiError>)
    ensures
        match outcome {
            RowOutcome::Row(s) => r matches Ok(v) && v == s,
            RowOutcome::NoRow => r matches Err(e) && e.spec_status() == 404 && e.spec_message()
                == "Store not found"@,
            RowOutcome::QueryError => r matches Err(e) && e.spec_status() == 500
                && e.spec_message() == "Database error"@,
        },
{
    match outcome {
        RowOutcome::Row(s) => Ok(s),
        RowOutcome::NoRow => Err(ApiError::NotFound("Store not found")),
        RowOutcome::QueryError => Err(ApiError::Internal("Database error")),
    }
}

/// What a many-row query answered.
pub enum RowsOutcome<T> {
    Rows(Vec<T>),
    QueryError,
}

/// Requires a many-row catalog query to have produced rows; any failure
/// stays internal.
pub fn require_rows<T>(outcome: RowsOutcome<T>) -> (r: Result<Vec<T>, ApiError>)
    ensures
        match outcome {
            RowsOutcome::Rows(rows) => r matches Ok(v) && v == rows,
            RowsOutcome::QueryError => r matches Err(e) && e.spec_status() == 500
                && e.spec_message() == "Database error"@,
        },
{
    match outcome {
        RowsOutcome::Rows(rows) => Ok(rows),
        RowsOutcome::QueryError => Err(ApiError::Internal("Database error")),
    }
}

/// The single-location response: the location's fields with its stores.
pub struct GetOneLocationResponse {
    pub id: i64,
    pub name: String,
    pub longitude: BigDecimal,
    pub latitude: BigDecimal,
    pub stores: Vec<Store>,
}

/// Builds the single-location response from its two query results.
pub fn get_one_location(location: Location, stores: Vec<Store>) -> (r: GetOneLocationResponse)
    ensures
        r.id == location.id,
        r.name == location.name,
        r.longitude == location.longitude,
        r.latitude == location.latitude,
        r.stores == stores,
{
    GetOneLocationResponse {
        id: location.id,
        name: location.name,
        longitude: location.longitude,
        latitude: location.latitude,
        stores,
    }
}

/// The single-store response: the store's fields with its items.
pub struct GetOneStoreResponse {
    pub id: i64,
    pub name: String,
    pub is_open: bool,
    pub cuisine: String,
    pub items: Vec<Item>,
}

/// Builds the single-store response from the store row and its items.
pub fn get_one_store(store: DbStore, items: Vec<Item>) -> (r: GetOneStoreResponse)
    ensures
        r.id == store.store_id,
        r.name == store.store_name,
        r.is_open == store.is_open,
        r.cuisine == store.cuisine,
        r.items == items,
{
    GetOneStoreResponse {
        id: store.store_id,
        name: store.store_name,
        is_open: store.is_open,
        cuisine: store.cuisine,
        items,
    }
}

} // verus!
