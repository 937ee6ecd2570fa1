//! The backend connection variant and everything decided before and after
//! the driver's asynchronous calls: which backend a connection string
//! selects, whether its document database name is acceptable, how a driver
//! failure message is classified, and what a query hands to the driver.
//!
//! The variant type carries the drivers' native handles as type parameters:
//! the pure core never inspects a handle, it only dispatches on which
//! backend the handle belongs to.

use vstd::prelude::*;
use crate::error::{DbError, UrlFault};
use crate::text::{
    all_space, all_space_str, contains_seq, contains_sub, find_char, has_char, is_first_at,
    is_last_at, first_at, last_at, lemma_first_at_unique, lemma_last_at_unique, rfind_char,
    starts_seq, starts_with_str, str_eq,
};
use crate::value::{BindParam, Value, bind_params, spec_bind};

verus! {

/// A live connection to one backend: a pooled handle to a single-file
/// relational database, or a handle to one named document database.  Which
/// variant a registry entry holds is fixed when the entry is created and
/// never changes without an intervening close.
#[derive(Debug)]
pub enum ConnectionPool<S, M> {
    Sqlite(S),
    Mongo(M),
}

/// What `connect` decided from the connection string alone, before any
/// backend is contacted: which backend to dial, and for the document backend
/// the validated database name extracted from the URI.
#[derive(Debug, PartialEq)]
pub enum ConnectPlan {
    Sqlite(String),
    Mongo { url: String, db_name: String },
}

/// The scheme: everything before the first `:`.
pub open spec fn spec_scheme(url: Seq<char>) -> Seq<char> {
    url.subrange(0, first_at(url, ':'))
}

/// The path segment following the final `/`; the whole string when it has
/// no `/` at all.
pub open spec fn after_last_slash(url: Seq<char>) -> Seq<char> {
    if has_char(url, '/') {
        url.subrange(last_at(url, '/') + 1, url.len() as int)
    } else {
        url
    }
}

/// Everything before the first `?`, stripping a trailing option string.
pub open spec fn before_first_qmark(s: Seq<char>) -> Seq<char> {
    if has_char(s, '?') {
        s.subrange(0, first_at(s, '?'))
    } else {
        s
    }
}

/// The document database name a URI denotes: the segment after the final
/// `/`, stripped of a `?`-prefixed option string.
pub open spec fn spec_db_name(url: Seq<char>) -> Seq<char> {
    before_first_qmark(after_last_slash(url))
}

/// The characters a document database name must not contain.
pub open spec fn is_reserved(c: char) -> bool {
    c == '/' || c == '\\' || c == ' ' || c == '"' || c == '$' || c == '*' || c == '<'
        || c == '>' || c == ':' || c == '|' || c == '?'
}

/// Some position of `s` holds a reserved character.
pub open spec fn has_reserved(s: Seq<char>) -> bool {
    exists|i: int| 0 <= i < s.len() && is_reserved(s[i])
}

/// `i` is the first position of `s` holding a reserved character.
pub open spec fn first_reserved_at(s: Seq<char>, i: int) -> bool {
    &&& 0 <= i < s.len()
    &&& is_reserved(s[i])
    &&& forall|j: int| 0 <= j < i ==> !is_reserved(s[j])
}

/// The first reserved character of `s`; meaningful only when `has_reserved`.
pub open spec fn first_reserved(s: Seq<char>) -> char {
    s[choose|i: int| first_reserved_at(s, i)]
}

/// What `connect_plan` must return for a connection string: the backend the
/// scheme selects, with every check the document URI must pass, or the
/// precise rejection.
pub open spec fn connect_rel(url: Seq<char>, r: Result<ConnectPlan, DbError>) -> bool {
    if !has_char(url, ':') {
        r matches Err(DbError::InvalidConnectionString(UrlFault::NoScheme(u))) && u@ == url
    } else {
        let scheme = spec_scheme(url);
        if scheme == "sqlite"@ {
            r matches Ok(ConnectPlan::Sqlite(u)) && u@ == url
        } else if scheme == "mongodb"@ || scheme == "mongodb+srv"@ {
            if !(starts_seq(url, "mongodb://"@) || starts_seq(url, "mongodb+srv://"@)) {
                r matches Err(DbError::InvalidConnectionString(UrlFault::BadDocumentPrefix(u)))
                    && u@ == url
            } else {
                let name = spec_db_name(url);
                if all_space(name) {
                    r matches Err(DbError::InvalidConnectionString(UrlFault::EmptyDatabaseName(u)))
                        && u@ == url
                } else if has_char(name, '.') {
                    r matches Err(DbError::InvalidConnectionString(UrlFault::InvalidNameChar {
                        name: n,
                        ch,
                    })) && n@ == name && ch == '.'
                } else if has_reserved(name) {
                    r matches Err(DbError::InvalidConnectionString(UrlFault::InvalidNameChar {
                        name: n,
                        ch,
                    })) && n@ == name && ch == first_reserved(name)
                } else {
                    r matches Ok(ConnectPlan::Mongo { url: u, db_name: n }) && u@ == url
                        && n@ == name
                }
            }
        } else {
            r matches Err(DbError::InvalidConnectionString(UrlFault::UnknownScheme(u))) && u@ == url
        }
    }
}

/// Whether `c` is reserved, decided exactly.
fn reserved_char(c: char) -> (r: bool)
    ensures
        r == is_reserved(c),
{
    c == '/' || c == '\\' || c == ' ' || c == '"' || c == '$' || c == '*' || c == '<'
        || c == '>' || c == ':' || c == '|' || c == '?'
}

/// The first reserved character of `s`, if any.
fn find_reserved(s: &str) -> (r: Option<char>)
    ensures
        match r {
            Some(c) => has_reserved(s@) && c == first_reserved(s@),
            None => !has_reserved(s@),
        },
{
    let n = s.unicode_len();
    let mut i: usize = 0;
    while i < n
        invariant
            n == s@.len(),
            i <= n,
            forall|j: int| 0 <= j < i ==> !is_reserved(s@[j]),
        decreases n - i,
    {
        let c = s.get_char(i);
        if reserved_char(c) {
            proof {
                assert(first_reserved_at(s@, i as int));
                let w = choose|k: int| first_reserved_at(s@, k);
                assert(first_reserved_at(s@, w));
                if w < i {
                    assert(!is_reserved(s@[w]));
                }
                if w > i {
                    assert(!is_reserved(s@[i as int]));
                }
            }
            return Some(c);
        }
        i += 1;
    }
    None
}

/// Parses and validates a connection string, deciding which backend it
/// selects.  The scheme before the first `:` picks the backend; a document
/// URI must additionally carry an acceptable prefix and a database name that
/// is non-empty and free of `.` and of every reserved character — the
/// rejection names the first offending character.  Nothing is dialled here:
/// the driver edge performs the plan and feeds any failure message back to
/// the classifiers below.
pub fn connect_plan(conn_url: &str) -> (r: Result<ConnectPlan, DbError>)
    ensures
        connect_rel(conn_url@, r),
{
    let colon = match find_char(conn_url, ':') {
        Some(i) => i,
        None => {
            return Err(DbError::InvalidConnectionString(UrlFault::NoScheme(conn_url.to_owned())));
        },
    };
    proof {
        assert(conn_url@[colon as int] == ':');
        assert(has_char(conn_url@, ':'));
        let w = first_at(conn_url@, ':');
        assert(is_first_at(conn_url@, ':', w));
        lemma_first_at_unique(conn_url@, ':', colon as int, w);
    }
    let scheme = conn_url.substring_char(0, colon);
    proof {
        assert(scheme@ == spec_scheme(conn_url@));
    }
    if str_eq(scheme, "sqlite") {
        Ok(ConnectPlan::Sqlite(conn_url.to_owned()))
    } else if str_eq(scheme, "mongodb") || str_eq(scheme, "mongodb+srv") {
        if !(starts_with_str(conn_url, "mongodb://") || starts_with_str(conn_url, "mongodb+srv://")) {
            return Err(DbError::InvalidConnectionString(UrlFault::BadDocumentPrefix(
                conn_url.to_owned(),
            )));
        }
        let ulen = conn_url.unicode_len();
        let tail = match rfind_char(conn_url, '/') {
            Some(i) => {
                proof {
                    assert(conn_url@[i as int] == '/');
                    assert(has_char(conn_url@, '/'));
                    let w = last_at(conn_url@, '/');
                    assert(is_last_at(conn_url@, '/', w));
                    lemma_last_at_unique(conn_url@, '/', i as int, w);
                }
                conn_url.substring_char(i + 1, ulen)
            },
            None => conn_url,
        };
        proof {
            assert(tail@ == after_last_slash(conn_url@));
        }
        let name_str = match find_char(tail, '?') {
            Some(i) => {
                proof {
                    assert(tail@[i as int] == '?');
                    assert(has_char(tail@, '?'));
                    let w = first_at(tail@, '?');
                    assert(is_first_at(tail@, '?', w));
                    lemma_first_at_unique(tail@, '?', i as int, w);
                }
                tail.substring_char(0, i)
            },
            None => tail,
        };
        proof {
            assert(name_str@ == spec_db_name(conn_url@));
        }
        if all_space_str(name_str) {
            return Err(DbError::InvalidConnectionString(UrlFault::EmptyDatabaseName(
                conn_url.to_owned(),
            )));
        }
        match find_char(name_str, '.') {
            Some(_) => {
                proof {
                    assert(has_char(name_str@, '.'));
                }
                return Err(DbError::InvalidConnectionString(UrlFault::InvalidNameChar {
                    name: name_str.to_owned(),
                    ch: '.',
                }));
            },
            None => {},
        }
        match find_reserved(name_str) {
            Some(c) => Err(DbError::InvalidConnectionString(UrlFault::InvalidNameChar {
                name: name_str.to_owned(),
                ch: c,
            })),
            None => Ok(ConnectPlan::Mongo {
                url: conn_url.to_owned(),
                db_name: name_str.to_owned(),
            }),
        }
    } else {
        Err(DbError::InvalidConnectionString(UrlFault::UnknownScheme(conn_url.to_owned())))
    }
}

/// The driver's failure text names a rejected credential.
pub open spec fn is_auth_msg(m: Seq<char>) -> bool {
    contains_seq(m, "SCRAM failure"@) || contains_seq(m, "Authentication failed"@)
}

/// The driver's failure text names a refused or timed-out connection.
pub open spec fn is_conn_msg(m: Seq<char>) -> bool {
    contains_seq(m, "connection refused"@) || contains_seq(m, "timed out"@)
}

/// The driver's failure text names an authorization problem.
pub open spec fn is_authz_msg(m: Seq<char>) -> bool {
    contains_seq(m, "authorization"@)
}

/// Classifies the failure of the document driver's client construction:
/// credential rejections first, then refused or timed-out connections, and
/// anything else passes through as a protocol error with its message.
pub fn classify_connect_failure(msg: &str) -> (r: DbError)
    ensures
        is_auth_msg(msg@) ==> (r matches DbError::AuthenticationFailed(m) && m@ == msg@),
        !is_auth_msg(msg@) && is_conn_msg(msg@) ==> (r matches DbError::ConnectionFailed(m)
            && m@ == msg@),
        !is_auth_msg(msg@) && !is_conn_msg(msg@) ==> (r matches DbError::BackendProtocolError(m)
            && m@ == msg@),
{
    if contains_sub(msg, "SCRAM failure") || contains_sub(msg, "Authentication failed") {
        DbError::AuthenticationFailed(msg.to_owned())
    } else if contains_sub(msg, "connection refused") || contains_sub(msg, "timed out") {
        DbError::ConnectionFailed(msg.to_owned())
    } else {
        DbError::BackendProtocolError(msg.to_owned())
    }
}

/// Classifies the failure of the liveness probe issued right after the
/// document client is built: credential rejections first, then insufficient
/// privilege, then refused or timed-out connections, and anything else
/// passes through as a protocol error with its message.
pub fn classify_probe_failure(msg: &str) -> (r: DbError)
    ensures
        is_auth_msg(msg@) ==> (r matches DbError::AuthenticationFailed(m) && m@ == msg@),
        !is_auth_msg(msg@) && is_authz_msg(msg@) ==> (r matches DbError::AuthorizationFailed(m)
            && m@ == msg@),
        !is_auth_msg(msg@) && !is_authz_msg(msg@) && is_conn_msg(msg@)
            ==> (r matches DbError::ConnectionFailed(m) && m@ == msg@),
        !is_auth_msg(msg@) && !is_authz_msg(msg@) && !is_conn_msg(msg@)
            ==> (r matches DbError::BackendProtocolError(m) && m@ == msg@),
{
    if contains_sub(msg, "SCRAM failure") || contains_sub(msg, "Authentication failed") {
        DbError::AuthenticationFailed(msg.to_owned())
    } else if contains_sub(msg, "authorization") {
        DbError::AuthorizationFailed(msg.to_owned())
    } else if contains_sub(msg, "connection refused") || contains_sub(msg, "timed out") {
        DbError::ConnectionFailed(msg.to_owned())
    } else {
        DbError::BackendProtocolError(msg.to_owned())
    }
}

/// The relational target named by a connect plan does not exist: the load is
/// rejected as an invalid connection string naming the target, and nothing
/// is dialled.
pub fn missing_relational_target(url: &str) -> (r: DbError)
    ensures
        r matches DbError::InvalidConnectionString(UrlFault::NoSuchDatabase(u)) && u@ == url@,
{
    DbError::InvalidConnectionString(UrlFault::NoSuchDatabase(url.to_owned()))
}

/// Dialling an existing relational target failed: classified as a
/// connection failure carrying the driver's message.
pub fn relational_dial_failure(msg: &str) -> (r: DbError)
    ensures
        r matches DbError::ConnectionFailed(m) && m@ == msg@,
{
    DbError::ConnectionFailed(msg.to_owned())
}

/// The document driver's native command and reply type, declared so that it
/// can pass through signatures; the core never looks inside one.
#[verifier::external_type_specification]
#[verifier::external_body]
pub struct ExDocument(mongodb::bson::Document);

/// The JSON parser's failure type, declared so that the parse wrapper can
/// return it; the core only turns it into text.
#[verifier::external_type_specification]
#[verifier::external_body]
pub struct ExJsonError(serde_json::Error);

/// Whether a command text parses as a single backend-native command
/// document: the name of what the JSON parser decides, a function of the
/// text alone.
pub uninterp spec fn doc_parses(s: Seq<char>) -> bool;

/// Relies on serde_json::from_str with bson's Document as the target type:
/// whether the text deserializes depends on the text alone — it parses
/// exactly when it is a single JSON object, which becomes the
/// backend-native command document.
#[verifier::external_body]
fn parse_document(text: &str) -> (r: Result<mongodb::bson::Document, serde_json::Error>)
    ensures
        r is Ok <==> doc_parses(text@),
{
    serde_json::from_str(text)
}

/// Relies on serde_json::Error's Display implementation for the text of a
/// parse failure.
#[verifier::external_body]
fn json_error_text(e: &serde_json::Error) -> (r: String) {
    e.to_string()
}

/// What the query step hands the driver edge: bound positional parameters
/// for the relational backend, or the parsed command document for the
/// document backend — which, by a documented asymmetry of the surface,
/// ignores the caller's parameter list.
#[derive(Debug)]
pub enum QueryPlan {
    Sqlite(Vec<BindParam>),
    Mongo(mongodb::bson::Document),
}

impl<S, M> ConnectionPool<S, M> {
    /// Prepares a query for whichever backend this connection is.  For the
    /// relational variant the parameters are coerced positionally, in order,
    /// and the text passes to the driver as-is.  For the document variant
    /// the plan succeeds exactly when the text parses as a single command
    /// object — so for a fixed text the outcome does not depend on the
    /// parameter list, which that backend ignores; a text that does not
    /// parse fails with `MalformedCommand` carrying the parse failure's
    /// text.
    pub fn query_plan(&self, text: &str, params: Vec<Value>) -> (r: Result<QueryPlan, DbError>)
        ensures
            self is Sqlite ==> (r matches Ok(QueryPlan::Sqlite(ps)) && ps@.len() == params@.len()
                && forall|i: int| 0 <= i < params@.len() ==> ps@[i] == spec_bind(params@[i])),
            self is Mongo ==> (r is Ok <==> doc_parses(text@)),
            self is Mongo ==> match r {
                Ok(p) => p is Mongo,
                Err(e) => e is MalformedCommand,
            },
    {
        match self {
            ConnectionPool::Sqlite(_) => Ok(QueryPlan::Sqlite(bind_params(params))),
            ConnectionPool::Mongo(_) => match parse_document(text) {
                Ok(doc) => Ok(QueryPlan::Mongo(doc)),
                Err(e) => Err(DbError::MalformedCommand(json_error_text(&e))),
            },
        }
    }
}

} // verus!
