use vstd::prelude::*;

verus! {

use crate::config::consts::PASSWORD_LENGTH_MAXIMUM;
use crate::config::consts::PASSWORD_LENGTH_MINIMUM;
use crate::config::consts::USERNAME_LENGTH_MAXIMUM;
use crate::config::consts::USERNAME_LENGTH_MINIMUM;

/// Handle to the database driver's Postgres connection pool. The pool type
/// carries a trait bound Verus cannot follow, so the handle holds it
/// opaquely; nothing here reads anything out of it.
#[verifier::external_body]
pub struct PgPool {
    pool: sqlx::Pool<sqlx::postgres::Postgres>,
}

impl PgPool {
    /// Relies on sqlx's `PoolOptions::connect_lazy`: parses the connection
    /// URL and builds a pool without connecting. The pool is built with no
    /// idle timeout, no maximum connection lifetime and no minimum
    /// connection count, so the driver spawns no background maintenance
    /// task and the call needs no async runtime and cannot panic. `None`
    /// exactly when the driver refused the URL. No claim is made about the
    /// pool itself.
    #[verifier::external_body]
    pub fn connect_lazy(url: &str) -> (handle: Option<PgPool>)
    {
        let options = sqlx::postgres::PgPoolOptions::new()
            .idle_timeout(None::<std::time::Duration>)
            .max_lifetime(None::<std::time::Duration>)
            .min_connections(0);
        match options.connect_lazy(url) {
            Ok(pool) => Some(PgPool { pool }),
            Err(_) => None,
        }
    }

    /// Relies on sqlx's `Pool::clone`: a clone is another handle to the
    /// same pool. Nothing is claimed of it.
    #[verifier::external_body]
    pub fn another_handle(&self) -> (handle: PgPool)
    {
        PgPool { pool: self.pool.clone() }
    }
}

/// The relational backend behind account storage. Its queries run outside
/// this crate; what it decides before any query — whether submitted
/// credentials are acceptable at all — is `credentials_acceptable`.
pub struct PostgreSQLBackend {
    pub pool: PgPool,
}

impl Clone for PostgreSQLBackend {
    fn clone(&self) -> Self {
        PostgreSQLBackend { pool: self.pool.another_handle() }
    }
}

impl PostgreSQLBackend {
    pub fn new(pool: PgPool) -> (backend: Self)
        ensures
            backend.pool == pool,
    {
        PostgreSQLBackend { pool }
    }

    /// Whether a new account may be created with these credentials: both
    /// the username and the password must fall inside their documented
    /// byte-length bounds. Anything else is rejected before any hashing or
    /// query happens.
    pub fn credentials_acceptable(username: &str, password: &str) -> (acceptable: bool)
        ensures
            acceptable == {
                &&& USERNAME_LENGTH_MINIMUM <= username.len() <= USERNAME_LENGTH_MAXIMUM
                &&& PASSWORD_LENGTH_MINIMUM <= password.len() <= PASSWORD_LENGTH_MAXIMUM
            },
    {
        USERNAME_LENGTH_MINIMUM <= username.len() && username.len() <= USERNAME_LENGTH_MAXIMUM
            && PASSWORD_LENGTH_MINIMUM <= password.len() && password.len()
            <= PASSWORD_LENGTH_MAXIMUM
    }
}

} // verus!
