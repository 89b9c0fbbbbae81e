//! Applying an assembled registry to a database connection.
//!
//! The executor is a narrow collaborator: a connection-like value that runs
//! one block of SQL statements as a single unit. The registry's migrations
//! are applied strictly in registry order, aborting the whole batch on the
//! first failure; reverting is never a valid operation, since no reverse SQL
//! is captured.

use vstd::prelude::*;
use vstd::string::StringExecFns;
use crate::errors::RunError;
use crate::registry::{EmbeddedMigration, MigrationRegistry};

verus! {

/// A batch SQL executor: the one capability this crate asks of a database
/// connection. `sql_log` is the history of SQL blocks the connection has
/// applied, oldest first.
pub trait Connection {
    spec fn sql_log(&self) -> Seq<Seq<char>>;

    /// Executes one block of SQL statements as a single unit: on success the
    /// block joins the history; on failure (reported as a database error
    /// message) the history is unchanged, since the block runs as one unit.
    fn batch_execute(&mut self, sql: &str) -> (r: Result<(), String>)
        ensures
            r is Ok ==> final(self).sql_log() == old(self).sql_log().push(sql@),
            r is Err ==> final(self).sql_log() == old(self).sql_log(),
    ;
}

/// A connection that applies every block by recording it: the simplest
/// working executor, and the way tests observe what was applied in which
/// order.
pub struct InMemoryConnection {
    /// Every applied SQL block, oldest first.
    pub executed: Vec<String>,
}

impl InMemoryConnection {
    /// A connection with an empty history.
    pub fn new() -> (c: InMemoryConnection)
        ensures
            c.sql_log() == Seq::<Seq<char>>::empty(),
    {
        let c = InMemoryConnection { executed: Vec::new() };
        proof {
            assert(c.sql_log() =~~= Seq::<Seq<char>>::empty());
        }
        c
    }
}

impl Connection for InMemoryConnection {
    open spec fn sql_log(&self) -> Seq<Seq<char>> {
        self.executed.deep_view()
    }

    fn batch_execute(&mut self, sql: &str) -> (r: Result<(), String>)
        ensures
            r is Ok ==> final(self).sql_log() == old(self).sql_log().push(sql@),
            r is Err ==> final(self).sql_log() == old(self).sql_log(),
    {
        self.executed.push(sql.to_owned());
        proof {
            assert(final(self).sql_log() =~~= old(self).sql_log().push(sql@));
        }
        Ok(())
    }
}

/// A connection that rejects every block with a fixed message: the way tests
/// observe how a database failure propagates.
pub struct FailingConnection {
    /// The error message every execution reports.
    pub message: String,
}

impl Connection for FailingConnection {
    open spec fn sql_log(&self) -> Seq<Seq<char>> {
        Seq::empty()
    }

    fn batch_execute(&mut self, sql: &str) -> (r: Result<(), String>)
        ensures
            r is Ok ==> final(self).sql_log() == old(self).sql_log().push(sql@),
            r is Err ==> final(self).sql_log() == old(self).sql_log(),
    {
        Err(self.message.clone())
    }
}

/// The forward SQL of each migration, in registry order.
pub open spec fn up_sqls(s: Seq<EmbeddedMigration>) -> Seq<Seq<char>> {
    Seq::new(s.len(), |i: int| s[i].up_sql@)
}

/// The progress line announcing one migration.
pub open spec fn progress_line(m: EmbeddedMigration) -> Seq<char> {
    "Running migration "@ + m.version@
}

/// The capability set of one migration, whatever its source: expose the
/// version, apply the forward SQL, and refuse to revert. The embedded variant
/// is the one source this crate ships; other sources can implement the same
/// interface without changing the registry or the executor.
pub trait Migration {
    /// The migration's version token.
    spec fn spec_version(&self) -> Seq<char>;

    /// The migration's forward SQL.
    spec fn spec_up_sql(&self) -> Seq<char>;

    /// The migration's version token.
    fn version(&self) -> (r: &str)
        ensures
            r@ == self.spec_version(),
    ;

    /// Applies the migration's forward SQL to the connection. On failure the
    /// reported error names this migration's version and the connection's
    /// history is unchanged.
    fn run<C: Connection>(&self, conn: &mut C) -> (r: Result<(), RunError>)
        ensures
            r is Ok ==> final(conn).sql_log() == old(conn).sql_log().push(self.spec_up_sql()),
            r is Err ==> final(conn).sql_log() == old(conn).sql_log(),
            r matches Err(e) ==> e matches RunError::DatabaseError { version, message: _ }
                && version@ == self.spec_version(),
    ;

    /// Signals that reverting is not supported: it fails on every call and
    /// never touches the connection.
    fn revert<C: Connection>(&self, conn: &mut C) -> (r: Result<(), RunError>)
        ensures
            r == Err::<(), RunError>(RunError::RevertUnsupported),
            final(conn).sql_log() == old(conn).sql_log(),
    ;
}

impl Migration for EmbeddedMigration {
    open spec fn spec_version(&self) -> Seq<char> {
        self.version@
    }

    open spec fn spec_up_sql(&self) -> Seq<char> {
        self.up_sql@
    }

    fn version(&self) -> (r: &str) {
        self.version.as_str()
    }

    fn run<C: Connection>(&self, conn: &mut C) -> (r: Result<(), RunError>) {
        match conn.batch_execute(self.up_sql.as_str()) {
            Ok(_) => Ok(()),
            Err(m) => Err(
                RunError::DatabaseError { version: self.version.clone(), message: m },
            ),
        }
    }

    /// No reverse SQL is captured for an embedded migration, so reverting
    /// always fails.
    fn revert<C: Connection>(&self, conn: &mut C) -> (r: Result<(), RunError>) {
        let _ = conn;
        Err(RunError::RevertUnsupported)
    }
}

impl MigrationRegistry {
    /// How many migrations the registry carries.
    pub fn len(&self) -> (n: usize)
        ensures
            n == self@.len(),
    {
        self.migrations.len()
    }

    /// Applies all embedded migrations to the connection, in registry order,
    /// writing one progress line per attempted migration to `out`. The batch
    /// is fail-fast: the first failure aborts it, every earlier migration
    /// already applied, and the error names the migration that failed.
    #[verifier::loop_isolation(false)]
    pub fn run_with_output<C: Connection>(
        &self,
        conn: &mut C,
        out: &mut Vec<String>,
    ) -> (r: Result<(), RunError>)
        ensures
            old(out)@.is_prefix_of(final(out)@),
            forall|t: int|
                old(out)@.len() <= t < final(out)@.len() ==> #[trigger] final(out)@[t]@ == progress_line(
                    self@[t - old(out)@.len()],
                ),
            r is Ok ==> final(conn).sql_log() == old(conn).sql_log() + up_sqls(self@) && final(out)@.len()
                == old(out)@.len() + self@.len(),
            r matches Err(e) ==> exists|k: int|
                {
                    &&& 0 <= k < self@.len()
                    &&& e matches RunError::DatabaseError { version, message: _ }
                        && version@ == #[trigger] self@[k].version@
                    &&& final(conn).sql_log() == old(conn).sql_log() + up_sqls(self@.take(k))
                    &&& final(out)@.len() == old(out)@.len() + k + 1
                },
    {
        let mut i: usize = 0;
        while i < self.migrations.len()
            invariant
                i <= self@.len(),
                conn.sql_log() == old(conn).sql_log() + up_sqls(self@.take(i as int)),
                out@.len() == old(out)@.len() + i,
                old(out)@.is_prefix_of(out@),
                forall|t: int|
                    old(out)@.len() <= t < out@.len() ==> #[trigger] out@[t]@ == progress_line(
                        self@[t - old(out)@.len()],
                    ),
            decreases self@.len() - i,
        {
            let m = &self.migrations[i];
            let mut line = String::from_str("Running migration ");
            line.append(m.version.as_str());
            out.push(line);
            match m.run(conn) {
                Ok(_) => {},
                Err(e) => {
                    proof {
                        assert(conn.sql_log() == old(conn).sql_log() + up_sqls(
                            self@.take(i as int),
                        ));
                    }
                    return Err(e);
                },
            }
            proof {
                assert(up_sqls(self@.take(i + 1)) =~= up_sqls(self@.take(i as int)).push(
                    self@[i as int].up_sql@,
                ));
                assert(old(conn).sql_log() + up_sqls(self@.take(i + 1)) =~~= (old(conn).sql_log()
                    + up_sqls(self@.take(i as int))).push(self@[i as int].up_sql@));
            }
            i += 1;
        }
        proof {
            assert(self@.take(i as int) =~= self@);
        }
        Ok(())
    }

    /// Applies all embedded migrations to the connection, in registry order,
    /// discarding the progress text.
    pub fn run<C: Connection>(&self, conn: &mut C) -> (r: Result<(), RunError>)
        ensures
            r is Ok ==> final(conn).sql_log() == old(conn).sql_log() + up_sqls(self@),
            r matches Err(e) ==> exists|k: int|
                {
                    &&& 0 <= k < self@.len()
                    &&& e matches RunError::DatabaseError { version, message: _ }
                        && version@ == #[trigger] self@[k].version@
                    &&& final(conn).sql_log() == old(conn).sql_log() + up_sqls(self@.take(k))
                },
    {
        let mut sink: Vec<String> = Vec::new();
        self.run_with_output(conn, &mut sink)
    }
}

} // verus!
