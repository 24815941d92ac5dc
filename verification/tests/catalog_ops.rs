use fusecol::catalog::CatalogAction;
use fusecol::catalog::Config;
use fusecol::catalog::CreateDatabasePlan;
use fusecol::catalog::Database;
use fusecol::catalog::DatabaseCatalog;
use fusecol::catalog::DatabaseEngineType;
use fusecol::catalog::DropDatabasePlan;
use fusecol::catalog::Lookup;
use fusecol::catalog::TableFunctionMeta;
use fusecol::catalog::TableMeta;
use fusecol::error::ErrorCode;

fn local_catalog() -> DatabaseCatalog {
    DatabaseCatalog::try_create_with_config(Config { store_address: String::new() }).unwrap()
}

fn remote_catalog() -> DatabaseCatalog {
    DatabaseCatalog::try_create_with_config(Config {
        store_address: "store:9191".to_string(),
    })
    .unwrap()
}

fn create_plan(name: &str, if_not_exists: bool) -> CreateDatabasePlan {
    CreateDatabasePlan {
        db: name.to_string(),
        if_not_exists,
        engine: DatabaseEngineType::Local,
    }
}

#[test]
fn create_database_is_idempotent_only_with_the_flag() {
    let mut catalog = local_catalog();

    // without if-not-exists the second create of the same name fails
    assert!(matches!(
        catalog.create_database(create_plan("db1", false)),
        Ok(CatalogAction::Done)
    ));
    let err = catalog.create_database(create_plan("db1", false)).unwrap_err();
    assert!(matches!(err, ErrorCode::UnknownDatabase(s) if s == "db1"));

    // with if-not-exists both calls succeed
    let mut catalog = local_catalog();
    assert!(matches!(
        catalog.create_database(create_plan("db2", true)),
        Ok(CatalogAction::Done)
    ));
    assert!(matches!(
        catalog.create_database(create_plan("db2", true)),
        Ok(CatalogAction::Done)
    ));
}

#[test]
fn created_databases_are_found_by_name() {
    let mut catalog = local_catalog();
    catalog.create_database(create_plan("mine", false)).unwrap();
    match catalog.get_database("mine").unwrap() {
        Lookup::Found(db) => {
            assert_eq!(db.name, "mine");
            assert!(db.is_local());
            assert!(db.tables.is_empty());
        }
        Lookup::ConsultRemote => panic!("local database resolved remotely"),
    }
    let err = catalog.get_database("other").unwrap_err();
    assert!(matches!(err, ErrorCode::UnknownDatabase(s) if s == "other"));
}

#[test]
fn remote_engine_creates_are_delegated() {
    let mut catalog = remote_catalog();
    let plan = CreateDatabasePlan {
        db: "afar".to_string(),
        if_not_exists: false,
        engine: DatabaseEngineType::Remote,
    };
    match catalog.create_database(plan).unwrap() {
        CatalogAction::DelegateCreate(p) => assert_eq!(p.db, "afar"),
        _ => panic!("remote create was not delegated"),
    }
    // an unknown name with a store configured is asked of the store
    assert!(matches!(catalog.get_database("afar"), Ok(Lookup::ConsultRemote)));
}

#[test]
fn register_database_keys_by_lowercased_name() {
    let mut catalog = local_catalog();
    let db = Database {
        name: "MySales".to_string(),
        engine: DatabaseEngineType::Local,
        tables: vec![TableMeta { name: "orders".to_string(), table_id: 11, version: None }],
        table_functions: vec![TableFunctionMeta { name: "numbers".to_string(), table_id: 5 }],
    };
    catalog.register_database(vec![db]).unwrap();

    // found under the lowercased key; the mixed-case key is not registered
    match catalog.get_database("mysales").unwrap() {
        Lookup::Found(db) => assert_eq!(db.name, "MySales"),
        Lookup::ConsultRemote => panic!("local database resolved remotely"),
    }
    assert!(catalog.get_database("MySales").is_err());

    let tf = catalog.get_table_function("numbers").unwrap();
    assert_eq!(tf.table_id, 5);
    let err = catalog.get_table_function("letters").unwrap_err();
    assert!(matches!(err, ErrorCode::UnknownTableFunction(s) if s == "letters"));
}

#[test]
fn tables_resolve_through_their_database() {
    let mut catalog = local_catalog();
    let db = Database {
        name: "sales".to_string(),
        engine: DatabaseEngineType::Local,
        tables: vec![
            TableMeta { name: "orders".to_string(), table_id: 21, version: Some(3) },
            TableMeta { name: "items".to_string(), table_id: 22, version: None },
        ],
        table_functions: vec![],
    };
    catalog.register_database(vec![db]).unwrap();

    match catalog.get_table("sales", "items").unwrap() {
        Lookup::Found(t) => assert_eq!(t.table_id, 22),
        Lookup::ConsultRemote => panic!("local table resolved remotely"),
    }
    let err = catalog.get_table("sales", "missing").unwrap_err();
    assert!(matches!(err, ErrorCode::UnknownTable(s) if s == "missing"));
    let err = catalog.get_table("nosuch", "orders").unwrap_err();
    assert!(matches!(err, ErrorCode::UnknownDatabase(s) if s == "nosuch"));

    match catalog.get_table_by_id("sales", 21, Some(3)).unwrap() {
        Lookup::Found(t) => assert_eq!(t.name, "orders"),
        Lookup::ConsultRemote => panic!("local table resolved remotely"),
    }
    assert!(catalog.get_table_by_id("sales", 99, None).is_err());
}

#[test]
fn get_databases_merges_and_sorts_names() {
    let mut catalog = local_catalog();
    catalog.create_database(create_plan("beta", false)).unwrap();
    catalog.create_database(create_plan("alpha", false)).unwrap();
    // without a store the remote names are ignored
    let names = catalog.get_databases(vec!["aaa".to_string()]);
    assert_eq!(names, vec!["alpha".to_string(), "beta".to_string()]);

    let mut catalog = remote_catalog();
    catalog.create_database(create_plan("gamma", false)).unwrap();
    let names = catalog.get_databases(vec!["beta".to_string(), "alpha".to_string()]);
    assert_eq!(
        names,
        vec!["alpha".to_string(), "beta".to_string(), "gamma".to_string()]
    );
}

#[test]
fn drop_database_is_idempotent_only_with_the_flag() {
    let mut catalog = local_catalog();
    catalog.create_database(create_plan("gone", false)).unwrap();
    assert!(matches!(
        catalog.drop_database(DropDatabasePlan { db: "gone".to_string(), if_exists: false }),
        Ok(CatalogAction::Done)
    ));
    assert!(catalog.get_database("gone").is_err());

    // a second drop without if-exists fails ...
    let err = catalog
        .drop_database(DropDatabasePlan { db: "gone".to_string(), if_exists: false })
        .unwrap_err();
    assert!(matches!(err, ErrorCode::UnknownDatabase(s) if s == "gone"));

    // ... and succeeds silently with it
    assert!(matches!(
        catalog.drop_database(DropDatabasePlan { db: "gone".to_string(), if_exists: true }),
        Ok(CatalogAction::Done)
    ));
}

#[test]
fn drop_database_delegates_what_is_not_local() {
    let mut catalog = remote_catalog();
    // unknown locally, store configured: the store decides
    match catalog
        .drop_database(DropDatabasePlan { db: "afar".to_string(), if_exists: false })
        .unwrap()
    {
        CatalogAction::DelegateDrop(p) => assert_eq!(p.db, "afar"),
        _ => panic!("remote drop was not delegated"),
    }

    // a registered remote-engine database is delegated too
    let db = Database {
        name: "afar".to_string(),
        engine: DatabaseEngineType::Remote,
        tables: vec![],
        table_functions: vec![],
    };
    catalog.register_database(vec![db]).unwrap();
    assert!(matches!(
        catalog.drop_database(DropDatabasePlan { db: "afar".to_string(), if_exists: false }),
        Ok(CatalogAction::DelegateDrop(_))
    ));
}

#[test]
fn get_all_tables_shadows_remote_databases() {
    let mut catalog = remote_catalog();
    let db = Database {
        name: "sales".to_string(),
        engine: DatabaseEngineType::Local,
        tables: vec![TableMeta { name: "orders".to_string(), table_id: 1, version: None }],
        table_functions: vec![],
    };
    catalog.register_database(vec![db]).unwrap();

    let remote = vec![
        ("sales".to_string(), TableMeta { name: "shadowed".to_string(), table_id: 2, version: None }),
        ("hr".to_string(), TableMeta { name: "people".to_string(), table_id: 3, version: None }),
    ];
    let all = catalog.get_all_tables(remote);
    let summary: Vec<(String, String)> =
        all.iter().map(|(d, t)| (d.clone(), t.name.clone())).collect();
    // the local `sales` shadows the remote database of the same name
    assert_eq!(
        summary,
        vec![
            ("sales".to_string(), "orders".to_string()),
            ("hr".to_string(), "people".to_string()),
        ]
    );

    // with no store configured, remote pairs are ignored entirely
    let mut local_only = local_catalog();
    local_only
        .register_database(vec![Database {
            name: "sales".to_string(),
            engine: DatabaseEngineType::Local,
            tables: vec![],
            table_functions: vec![],
        }])
        .unwrap();
    let all = local_only.get_all_tables(vec![(
        "hr".to_string(),
        TableMeta { name: "people".to_string(), table_id: 3, version: None },
    )]);
    assert!(all.is_empty());
}
