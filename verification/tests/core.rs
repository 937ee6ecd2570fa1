use dbcore::connection_pool::{classify_connect_failure, classify_probe_failure, connect_plan,
    ConnectPlan, ConnectionPool, QueryPlan};
use dbcore::decode::{finish_cell, plan_cell, DecodePlan, Fetched};
use dbcore::document::{decode_document, decode_field, decode_reply, BsonVal, ReplyItem};
use dbcore::error::{DbError, UrlFault};
use dbcore::record::build_record;
use dbcore::registry::DbInstances;
use dbcore::value::{bind_param, bind_params, BindParam, Value};

#[test]
fn null_cell_decodes_null_for_every_declared_type() {
    let decls = [
        "TEXT", "REAL", "INTEGER", "NUMERIC", "BOOLEAN", "DATE", "TIME", "DATETIME", "BLOB",
        "NULL", "SOMETHING_ELSE",
    ];
    for decl in decls {
        let plan = plan_cell(true, decl).unwrap();
        assert_eq!(plan, DecodePlan::EmitNull);
        assert_eq!(finish_cell(plan, Fetched::Failed), Value::Null);
    }
}

#[test]
fn text_round_trip() {
    let s = "héllo wörld".to_string();
    let bound = bind_param(Value::Text(s.clone()));
    assert_eq!(bound, BindParam::Text(s.clone()));
    let stored = match bound {
        BindParam::Text(t) => t,
        _ => panic!("string parameter must bind as text"),
    };
    let plan = plan_cell(false, "TEXT").unwrap();
    assert_eq!(plan, DecodePlan::Text);
    assert_eq!(finish_cell(plan, Fetched::Text(stored)), Value::Text(s));
}

#[test]
fn real_round_trip() {
    let f: f64 = -12345.6789;
    let bits = f.to_bits();
    let bound = bind_param(Value::Float(bits));
    assert_eq!(bound, BindParam::Float(bits));
    let plan = plan_cell(false, "REAL").unwrap();
    let back = finish_cell(plan, Fetched::Real(bits));
    assert_eq!(back, Value::Float(bits));
    match back {
        Value::Float(b) => assert_eq!(f64::from_bits(b), f),
        _ => panic!("REAL cell must decode to a float"),
    }
}

#[test]
fn unknown_declared_type_fails_the_query() {
    match plan_cell(false, "UUID") {
        Err(DbError::UnsupportedDatatype(t)) => assert_eq!(t, "UUID"),
        other => panic!("expected UnsupportedDatatype, got {:?}", other),
    }
}

#[test]
fn integer_and_numeric_decode_as_integers() {
    for decl in ["INTEGER", "NUMERIC"] {
        let plan = plan_cell(false, decl).unwrap();
        assert_eq!(plan, DecodePlan::Integer);
        assert_eq!(finish_cell(plan, Fetched::Int(-7)), Value::Int(-7));
    }
}

#[test]
fn boolean_date_time_and_blob_decode() {
    let plan = plan_cell(false, "BOOLEAN").unwrap();
    assert_eq!(finish_cell(plan, Fetched::Bool(true)), Value::Bool(true));

    for decl in ["DATE", "TIME", "DATETIME"] {
        let plan = plan_cell(false, decl).unwrap();
        assert_eq!(
            finish_cell(plan, Fetched::Rendered("2023-01-02".to_string())),
            Value::Text("2023-01-02".to_string())
        );
    }

    let plan = plan_cell(false, "BLOB").unwrap();
    assert_eq!(
        finish_cell(plan, Fetched::Bytes(vec![0u8, 7u8, 255u8])),
        Value::Arr(vec![Value::Int(0), Value::Int(7), Value::Int(255)])
    );
}

#[test]
fn failed_extraction_degrades_to_null_not_an_error() {
    let plan = plan_cell(false, "TEXT").unwrap();
    assert_eq!(finish_cell(plan, Fetched::Failed), Value::Null);
    let plan = plan_cell(false, "REAL").unwrap();
    assert_eq!(finish_cell(plan, Fetched::Int(3)), Value::Null);
}

#[test]
fn bind_selects_the_documented_paths() {
    let params = bind_params(vec![
        Value::Null,
        Value::Text("a".to_string()),
        Value::Int(9),
        Value::Float(2.5f64.to_bits()),
        Value::Bool(true),
        Value::Arr(vec![Value::Int(1)]),
    ]);
    assert_eq!(params.len(), 6);
    assert_eq!(params[0], BindParam::Null);
    assert_eq!(params[1], BindParam::Text("a".to_string()));
    assert_eq!(params[2], BindParam::Int(9));
    assert_eq!(params[3], BindParam::Float(2.5f64.to_bits()));
    assert_eq!(params[4], BindParam::Other(Value::Bool(true)));
    assert_eq!(params[5], BindParam::Other(Value::Arr(vec![Value::Int(1)])));
}

#[test]
fn record_keeps_the_last_value_for_a_repeated_column_name() {
    let rec = build_record(vec![
        ("a".to_string(), Value::Int(1)),
        ("b".to_string(), Value::Int(2)),
        ("a".to_string(), Value::Int(3)),
    ]);
    assert_eq!(rec.len(), 2);
    let a = rec.iter().find(|p| p.0 == "a").expect("column a");
    assert_eq!(a.1, Value::Int(3));
    let b = rec.iter().find(|p| p.0 == "b").expect("column b");
    assert_eq!(b.1, Value::Int(2));
}

#[test]
fn reload_replaces_the_prior_handle() {
    let mut reg: DbInstances<u32> = DbInstances::new();
    assert_eq!(reg.load("conn".to_string(), 1), None);
    assert_eq!(reg.load("conn".to_string(), 2), Some(1));
    match reg.get(&"conn".to_string()) {
        Ok(h) => assert_eq!(*h, 2),
        Err(e) => panic!("expected the second handle, got {:?}", e),
    }
}

#[test]
fn close_all_unloads_every_name() {
    let mut reg: DbInstances<u32> = DbInstances::new();
    reg.load("one".to_string(), 1);
    reg.load("two".to_string(), 2);
    let removed = reg.close(None).unwrap();
    assert_eq!(removed.len(), 2);
    for name in ["one", "two"] {
        match reg.get(&name.to_string()) {
            Err(DbError::DatabaseNotLoaded(k)) => assert_eq!(k, name),
            other => panic!("expected DatabaseNotLoaded, got {:?}", other),
        }
    }
}

#[test]
fn query_against_a_name_never_loaded_names_that_key() {
    let reg: DbInstances<u32> = DbInstances::new();
    match reg.get(&"nowhere".to_string()) {
        Err(DbError::DatabaseNotLoaded(k)) => assert_eq!(k, "nowhere"),
        other => panic!("expected DatabaseNotLoaded, got {:?}", other),
    }
}

#[test]
fn close_of_an_absent_name_is_an_error_and_keeps_the_rest() {
    let mut reg: DbInstances<u32> = DbInstances::new();
    reg.load("kept".to_string(), 5);
    match reg.close(Some(&"absent".to_string())) {
        Err(DbError::DatabaseNotLoaded(k)) => assert_eq!(k, "absent"),
        other => panic!("expected DatabaseNotLoaded, got {:?}", other),
    }
    assert!(reg.get(&"kept".to_string()).is_ok());
}

#[test]
fn close_of_one_name_returns_its_handle() {
    let mut reg: DbInstances<u32> = DbInstances::new();
    reg.load("a".to_string(), 1);
    reg.load("b".to_string(), 2);
    let removed = reg.close(Some(&"a".to_string())).unwrap();
    assert_eq!(removed.len(), 1);
    assert_eq!(removed[0].0, "a");
    assert_eq!(removed[0].1, 1);
    assert!(reg.get(&"a".to_string()).is_err());
    assert!(reg.get(&"b".to_string()).is_ok());
}

#[test]
fn sqlite_scheme_selects_the_relational_backend() {
    assert_eq!(
        connect_plan("sqlite:test.db").unwrap(),
        ConnectPlan::Sqlite("sqlite:test.db".to_string())
    );
}

#[test]
fn missing_scheme_is_rejected_citing_the_string() {
    match connect_plan("just-a-path") {
        Err(DbError::InvalidConnectionString(UrlFault::NoScheme(u))) => {
            assert_eq!(u, "just-a-path")
        },
        other => panic!("expected NoScheme, got {:?}", other),
    }
}

#[test]
fn unknown_scheme_is_rejected() {
    match connect_plan("postgres://h/db") {
        Err(DbError::InvalidConnectionString(UrlFault::UnknownScheme(u))) => {
            assert_eq!(u, "postgres://h/db")
        },
        other => panic!("expected UnknownScheme, got {:?}", other),
    }
}

#[test]
fn document_uri_extracts_the_database_name() {
    match connect_plan("mongodb://localhost/testdb").unwrap() {
        ConnectPlan::Mongo { url, db_name } => {
            assert_eq!(url, "mongodb://localhost/testdb");
            assert_eq!(db_name, "testdb");
        },
        other => panic!("expected a document plan, got {:?}", other),
    }
}

#[test]
fn srv_scheme_is_accepted_and_options_are_stripped() {
    match connect_plan("mongodb+srv://host/app?retryWrites=true&w=majority").unwrap() {
        ConnectPlan::Mongo { db_name, .. } => assert_eq!(db_name, "app"),
        other => panic!("expected a document plan, got {:?}", other),
    }
}

#[test]
fn document_uri_without_the_accepted_prefix_is_rejected() {
    match connect_plan("mongodb:host/db") {
        Err(DbError::InvalidConnectionString(UrlFault::BadDocumentPrefix(u))) => {
            assert_eq!(u, "mongodb:host/db")
        },
        other => panic!("expected BadDocumentPrefix, got {:?}", other),
    }
}

#[test]
fn empty_database_name_is_rejected() {
    match connect_plan("mongodb://host/ ") {
        Err(DbError::InvalidConnectionString(UrlFault::EmptyDatabaseName(_))) => {},
        other => panic!("expected EmptyDatabaseName, got {:?}", other),
    }
}

#[test]
fn a_name_of_unicode_whitespace_counts_as_empty() {
    match connect_plan("mongodb://host/\u{00A0}\u{2003}") {
        Err(DbError::InvalidConnectionString(UrlFault::EmptyDatabaseName(_))) => {},
        other => panic!("expected EmptyDatabaseName, got {:?}", other),
    }
}

#[test]
fn database_name_with_a_period_cites_the_period() {
    match connect_plan("mongodb://host/my.db") {
        Err(DbError::InvalidConnectionString(UrlFault::InvalidNameChar { name, ch })) => {
            assert_eq!(name, "my.db");
            assert_eq!(ch, '.');
        },
        other => panic!("expected InvalidNameChar, got {:?}", other),
    }
}

#[test]
fn database_name_with_a_reserved_character_cites_it() {
    match connect_plan("mongodb://host/a$b") {
        Err(DbError::InvalidConnectionString(UrlFault::InvalidNameChar { name, ch })) => {
            assert_eq!(name, "a$b");
            assert_eq!(ch, '$');
        },
        other => panic!("expected InvalidNameChar, got {:?}", other),
    }
}

#[test]
fn connect_failures_are_classified_by_their_message() {
    assert!(matches!(
        classify_connect_failure("server returned: SCRAM failure"),
        DbError::AuthenticationFailed(_)
    ));
    assert!(matches!(
        classify_connect_failure("Authentication failed for user"),
        DbError::AuthenticationFailed(_)
    ));
    assert!(matches!(
        classify_connect_failure("tcp: connection refused"),
        DbError::ConnectionFailed(_)
    ));
    assert!(matches!(
        classify_connect_failure("operation timed out"),
        DbError::ConnectionFailed(_)
    ));
    match classify_connect_failure("something odd") {
        DbError::BackendProtocolError(m) => assert_eq!(m, "something odd"),
        other => panic!("expected BackendProtocolError, got {:?}", other),
    }
    assert!(matches!(
        classify_connect_failure("SCRAM failure after connection refused"),
        DbError::AuthenticationFailed(_)
    ));
}

#[test]
fn probe_failures_distinguish_authorization_and_network() {
    assert!(matches!(
        classify_probe_failure("SCRAM failure"),
        DbError::AuthenticationFailed(_)
    ));
    assert!(matches!(
        classify_probe_failure("not allowed: authorization denied"),
        DbError::AuthorizationFailed(_)
    ));
    assert!(matches!(
        classify_probe_failure("tcp: connection refused"),
        DbError::ConnectionFailed(_)
    ));
    assert!(matches!(
        classify_probe_failure("the ping timed out"),
        DbError::ConnectionFailed(_)
    ));
    assert!(matches!(
        classify_probe_failure("wire error"),
        DbError::BackendProtocolError(_)
    ));
    assert!(matches!(
        classify_probe_failure("authorization refused: connection refused"),
        DbError::AuthorizationFailed(_)
    ));
}

#[test]
fn document_fields_decode_by_kind() {
    assert_eq!(decode_field(&BsonVal::F64(1.5f64.to_bits())), Value::Float(1.5f64.to_bits()));
    assert_eq!(decode_field(&BsonVal::Str("x".to_string())), Value::Text("x".to_string()));
    assert_eq!(decode_field(&BsonVal::Bool(false)), Value::Bool(false));
    assert_eq!(decode_field(&BsonVal::Null), Value::Null);
    assert_eq!(
        decode_field(&BsonVal::Rendered("ObjectId(\"abc\")".to_string())),
        Value::Text("ObjectId(\"abc\")".to_string())
    );
}

#[test]
fn string_arrays_pass_through_and_mixed_arrays_degrade_to_empty() {
    let all = BsonVal::Arr(vec![
        BsonVal::Str("a".to_string()),
        BsonVal::Str("b".to_string()),
    ]);
    assert_eq!(
        decode_field(&all),
        Value::Arr(vec![Value::Text("a".to_string()), Value::Text("b".to_string())])
    );
    let mixed = BsonVal::Arr(vec![BsonVal::Str("a".to_string()), BsonVal::Bool(true)]);
    assert_eq!(decode_field(&mixed), Value::Arr(vec![]));
    let empty = BsonVal::Arr(vec![]);
    assert_eq!(decode_field(&empty), Value::Arr(vec![]));
}

#[test]
fn cursor_documents_become_rows_and_other_items_are_skipped() {
    let rows = decode_reply(Some(vec![
        ReplyItem::Doc(vec![
            ("n".to_string(), BsonVal::F64(2.0f64.to_bits())),
            ("s".to_string(), BsonVal::Str("v".to_string())),
        ]),
        ReplyItem::NotDoc,
        ReplyItem::Doc(vec![("ok".to_string(), BsonVal::Bool(true))]),
    ]));
    assert_eq!(rows.len(), 2);
    assert_eq!(rows[0].len(), 2);
    assert_eq!(rows[0][0], ("n".to_string(), Value::Float(2.0f64.to_bits())));
    assert_eq!(rows[0][1], ("s".to_string(), Value::Text("v".to_string())));
    assert_eq!(rows[1], vec![("ok".to_string(), Value::Bool(true))]);
}

#[test]
fn a_reply_without_a_cursor_array_yields_no_rows() {
    assert_eq!(decode_reply(None), Vec::<Vec<(String, Value)>>::new());
    assert_eq!(decode_reply(Some(vec![])), Vec::<Vec<(String, Value)>>::new());
}

#[test]
fn one_document_decodes_field_by_field() {
    let row = decode_document(vec![
        ("a".to_string(), BsonVal::Null),
        ("b".to_string(), BsonVal::Rendered("Int32(7)".to_string())),
    ]);
    assert_eq!(row, vec![
        ("a".to_string(), Value::Null),
        ("b".to_string(), Value::Text("Int32(7)".to_string())),
    ]);
}

#[test]
fn mongo_ping_command_parses_as_a_command_document() {
    let pool: ConnectionPool<u8, u8> = ConnectionPool::Mongo(0);
    match pool.query_plan("{\"ping\":1}", vec![]).unwrap() {
        QueryPlan::Mongo(doc) => assert!(doc.contains_key("ping")),
        other => panic!("expected a command document, got {:?}", other),
    }
}

#[test]
fn a_command_that_is_not_one_json_object_is_malformed() {
    let pool: ConnectionPool<u8, u8> = ConnectionPool::Mongo(0);
    for text in ["not json at all", "[1,2,3]", "\"ping\""] {
        match pool.query_plan(text, vec![]) {
            Err(DbError::MalformedCommand(_)) => {},
            other => panic!("expected MalformedCommand for {:?}, got {:?}", text, other),
        }
    }
}

#[test]
fn sqlite_query_plans_bind_positionally() {
    let pool: ConnectionPool<u8, u8> = ConnectionPool::Sqlite(0);
    match pool
        .query_plan("SELECT 1", vec![Value::Int(1), Value::Text("x".to_string())])
        .unwrap()
    {
        QueryPlan::Sqlite(ps) => {
            assert_eq!(ps, vec![BindParam::Int(1), BindParam::Text("x".to_string())])
        },
        other => panic!("expected relational parameters, got {:?}", other),
    }
}
