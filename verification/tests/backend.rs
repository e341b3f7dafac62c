use otakuhub::db::backend::{PgPool, PostgreSQLBackend};

#[test]
fn backend_wraps_a_lazy_pool() {
    // no runtime anywhere in sight: the pool is built without maintenance
    // tasks, so this must neither connect nor panic
    let pool = PgPool::connect_lazy("postgres://user:pw@localhost:5432/otakuhub")
        .expect("a well-formed URL yields a pool");
    let backend = PostgreSQLBackend::new(pool);
    let _second = backend.pool.another_handle();
}

#[test]
fn a_rejected_url_yields_no_pool() {
    assert!(PgPool::connect_lazy("not a database url").is_none());
}
