//! Database containers and their dumps: the checks a request passes, the
//! engine it names, the ports a new container may take.
use vstd::prelude::*;
use crate::text::{append, chars_of, eq_v, string_of};
use crate::validation::{is_valid_name, name_ok};

verus! {

fn text(s: &str) -> (r: String)
    ensures r@ == s@,
{
    string_of(&chars_of(s))
}

fn is(s: &str, l: &str) -> (r: bool)
    ensures r == (s@ == l@),
{
    eq_v(&chars_of(s), &chars_of(l))
}

/// A dump of one database.
pub struct DumpRequest {
    pub container_name: String,
    pub db_name: String,
    pub db_type: String,
    pub user: String,
    pub password: String,
    pub encryption_key: Option<String>,
}

/// The engines a dump knows.
#[derive(Debug, Clone, Copy, PartialEq, Eq, Structural)]
pub enum DumpEngine {
    Mysql,
    Postgres,
    Mongo,
}

pub open spec fn engine_of(t: Seq<char>) -> Option<DumpEngine> {
    if t == "mysql"@ || t == "mariadb"@ {
        Some(DumpEngine::Mysql)
    } else if t == "postgres"@ || t == "postgresql"@ {
        Some(DumpEngine::Postgres)
    } else if t == "mongo"@ || t == "mongodb"@ {
        Some(DumpEngine::Mongo)
    } else {
        None
    }
}

/// How a dump proceeds, or the sentence it is refused with: the name is
/// checked first, then the type.
pub fn dump_engine(db_name: &str, db_type: &str) -> (r: Result<DumpEngine, String>)
    ensures
        !name_ok(db_name@) ==> (r matches Err(m) && m@ == "Invalid database name"@),
        name_ok(db_name@) ==> match engine_of(db_type@) {
            Some(e) => r == Ok::<DumpEngine, String>(e),
            None => r matches Err(m) && m@ == "Unsupported database type"@,
        },
{
    if !is_valid_name(db_name) {
        return Err(text("Invalid database name"));
    }
    if is(db_type, "mysql") || is(db_type, "mariadb") {
        Ok(DumpEngine::Mysql)
    } else if is(db_type, "postgres") || is(db_type, "postgresql") {
        Ok(DumpEngine::Postgres)
    } else if is(db_type, "mongo") || is(db_type, "mongodb") {
        Ok(DumpEngine::Mongo)
    } else {
        Err(text("Unsupported database type"))
    }
}

/// A dump is encrypted when a key is given and not empty; the file then
/// gets the `.enc` suffix.
pub fn encrypted_name(filename: &str, key: Option<&str>) -> (r: Option<String>)
    ensures
        match key {
            Some(k) => if k@.len() > 0 { r matches Some(n) && n@ == filename@ + ".enc"@ } else { r is None },
            None => r is None,
        },
{
    match key {
        Some(k) => {
            if chars_of(k).len() > 0 {
                let mut v = chars_of(filename);
                append(&mut v, &chars_of(".enc"));
                Some(string_of(&v))
            } else {
                None
            }
        },
        None => None,
    }
}

/// The checks creating a database container makes: the name, then the
/// engine (MySQL, MariaDB or PostgreSQL).
pub fn check_create_database(name: &str, engine: &str) -> (r: Result<(), String>)
    ensures
        !name_ok(name@) ==> (r matches Err(m) && m@ == "Invalid database name"@),
        name_ok(name@) && (engine@ == "mysql"@ || engine@ == "mariadb"@ || engine@ == "postgres"@) ==> r is Ok,
        name_ok(name@) && !(engine@ == "mysql"@ || engine@ == "mariadb"@ || engine@ == "postgres"@) ==>
            (r matches Err(m) && m@ == "Engine must be mysql, mariadb, or postgres"@),
{
    if !is_valid_name(name) {
        return Err(text("Invalid database name"));
    }
    if is(engine, "mysql") || is(engine, "mariadb") || is(engine, "postgres") {
        Ok(())
    } else {
        Err(text("Engine must be mysql, mariadb, or postgres"))
    }
}

/// The host ports a new container may take when none is given, tried in
/// order: a hundred from 5433 for PostgreSQL, from 3307 otherwise.
pub fn candidate_ports(engine: &str) -> (r: (u16, u16))
    ensures
        r.0 == (if engine@ == "postgres"@ { 5433u16 } else { 3307u16 }),
        r.1 == r.0 + 100,
{
    let base: u16 = if is(engine, "postgres") { 5433 } else { 3307 };
    (base, base + 100)
}

} // verus!
