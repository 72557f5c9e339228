use xtract::cli::{Alert, Args, Profile, SubCommand};
use xtract::config::{Api, Config, Credentials, Settings};
use xtract::error::DataFrameError;
use xtract::profile::profile_table;
use xtract::table::{Cell, Column, ColumnKind, Table};
use xtract::transform::Transformer;

#[test]
fn alert_new_never_flags_deletion() {
    let a = Alert::new(Some("0xabcd".to_string()), Some("two rows".to_string()));
    assert_eq!(a.id.as_deref(), Some("0xabcd"));
    assert_eq!(a.data.as_deref(), Some("two rows"));
    assert!(!a.delete);
    let b = Alert::new(None, None);
    assert!(b.id.is_none() && b.data.is_none() && !b.delete);
}

#[test]
fn args_carry_a_subcommand() {
    let args = Args {
        subcmd: SubCommand::Profile(Profile {
            input: "data.csv".to_string(),
            publish: false,
            sql: None,
        }),
        input: None,
        verbose: Some(1),
    };
    match args.subcmd {
        SubCommand::Profile(p) => assert_eq!(p.input, "data.csv"),
        _ => panic!("wrong subcommand"),
    }
}

#[test]
fn config_holds_plain_values() {
    let c = Config {
        api: Api { server: "api.example.org".to_string(), port: 5000 },
        credentials: Credentials {
            username: "user".to_string(),
            password: "password".to_string(),
        },
        settings: Settings { tokenfile: ".token".to_string() },
    };
    assert_eq!(c.api.port, 5000);
    assert_eq!(c.settings.tokenfile, ".token");
}

#[test]
fn dataframe_error_variants_compare() {
    assert_eq!(DataFrameError::DivideByZero, DataFrameError::DivideByZero);
    assert_ne!(
        DataFrameError::ParseError("x".to_string()),
        DataFrameError::ComputeError("x".to_string())
    );
}

fn small_table() -> Table {
    let col = Column::new(
        "a".to_string(),
        ColumnKind::Integer,
        vec![Cell::Int(1), Cell::Int(2)],
    )
    .unwrap();
    Table::new(vec![col]).unwrap()
}

#[test]
fn transform_hands_a_matching_table_through() {
    let table = small_table();
    let meta = profile_table(&table).unwrap();
    let t = Transformer::new(table, meta);
    let out = t.transform();
    assert_eq!(out.num_columns(), 1);
    assert_eq!(out.num_rows(), 2);
    assert_eq!(out.column(0).name().as_str(), "a");
}
