use trapperkeeper::config;
use trapperkeeper::crud;
use trapperkeeper::database;
use trapperkeeper::database::{Error, Pool};

#[test]
fn can_establish_connection() {
    database::establish_connection().unwrap();
}

#[test]
fn established_connection_is_migrated_and_empty() {
    let mut conn = database::establish_connection().unwrap();
    assert_eq!(crud::get_trapps(&mut conn).unwrap(), vec![]);
    assert_eq!(crud::get_rules(&mut conn).unwrap(), vec![]);
    assert_eq!(crud::create_trapp(&mut conn, "foo").unwrap(), 1);
}

#[test]
fn builder_takes_its_values_from_the_configuration() {
    let cfg = config::Database::default();
    let pool = Pool::builder().from_config(&cfg).build().unwrap();
    assert_eq!(pool.url(), "sqlite://./tk.sqlite");
    assert_eq!(pool.size(), 8);
    assert!(!pool.is_closed());
}

#[test]
fn builder_setters_replace_one_value_each() {
    let pool = Pool::builder()
        .url("sqlite::memory:")
        .pool_size(3)
        .url("sqlite://./other.sqlite")
        .build()
        .unwrap();
    assert_eq!(pool.url(), "sqlite://./other.sqlite");
    assert_eq!(pool.size(), 3);
}

#[test]
fn pool_for_no_connection_is_not_built() {
    assert_eq!(Pool::builder().url("sqlite::memory:").build().err(), Some(Error::PoolTimedOut));
    assert_eq!(
        Pool::builder().url("sqlite::memory:").pool_size(0).build().err(),
        Some(Error::PoolTimedOut)
    );
}

#[test]
fn pool_hands_its_connection_out_once_at_a_time() {
    let mut pool = Pool::builder().url("sqlite::memory:").pool_size(2).build().unwrap();
    let conn = pool.acquire().unwrap();
    assert_eq!(pool.acquire().err(), Some(Error::PoolTimedOut));
    pool.release(conn);
    assert!(pool.acquire().is_ok());
}

#[test]
fn released_connection_keeps_what_was_stored() {
    let mut pool = Pool::builder().url("sqlite::memory:").pool_size(1).build().unwrap();
    let mut conn = pool.acquire().unwrap();
    let id = crud::create_trapp(&mut conn, "foo").unwrap();
    pool.release(conn);
    let mut conn = pool.acquire().unwrap();
    let found = crud::get_trapp_by_id(&mut conn, &id).unwrap().unwrap();
    assert_eq!(found.name, "foo");
}

#[test]
fn migrate_is_idle_on_a_ready_pool() {
    let mut pool = Pool::builder().url("sqlite::memory:").pool_size(1).build().unwrap();
    let mut conn = pool.acquire().unwrap();
    crud::create_trapp(&mut conn, "foo").unwrap();
    pool.release(conn);
    assert_eq!(pool.migrate(), Ok(()));
    let mut conn = pool.acquire().unwrap();
    assert_eq!(crud::get_trapps(&mut conn).unwrap().len(), 1);
}

#[test]
fn migrate_needs_the_connection_at_home() {
    let mut pool = Pool::builder().url("sqlite::memory:").pool_size(1).build().unwrap();
    let conn = pool.acquire().unwrap();
    assert_eq!(pool.migrate(), Err(Error::PoolTimedOut));
    pool.release(conn);
    assert_eq!(pool.migrate(), Ok(()));
}

#[test]
fn closed_pool_stays_closed() {
    let mut pool = Pool::builder().url("sqlite::memory:").pool_size(1).build().unwrap();
    let conn = pool.acquire().unwrap();
    pool.close();
    assert!(pool.is_closed());
    assert_eq!(pool.acquire().err(), Some(Error::PoolClosed));
    pool.release(conn);
    assert!(pool.is_closed());
    assert_eq!(pool.acquire().err(), Some(Error::PoolClosed));
    assert_eq!(pool.migrate(), Err(Error::PoolClosed));
}

#[test]
fn releasing_into_a_ready_pool_changes_nothing() {
    let mut pool = Pool::builder().url("sqlite::memory:").pool_size(1).build().unwrap();
    let mut conn = pool.acquire().unwrap();
    crud::create_trapp(&mut conn, "kept").unwrap();
    pool.release(conn);
    let stray = database::establish_connection().unwrap();
    pool.release(stray);
    let mut conn = pool.acquire().unwrap();
    assert_eq!(crud::get_trapps(&mut conn).unwrap().len(), 1);
}
