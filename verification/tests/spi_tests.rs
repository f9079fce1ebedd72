use spi::Datum;
use spi::Engine;
use spi::Name;
use spi::NameBytes;
use spi::Spi;
use spi::SpiError;
use spi::SpiOk;
use spi::datum::BOOLOID;
use spi::datum::FromDatum;
use spi::datum::INT4OID;
use spi::datum::IntoDatum;
use spi::datum::NAMEOID;
use spi::datum::TEXTOID;
use spi::engine::StatementAction;
use spi::engine::TupleDesc;

fn desc(cols: &[(&str, u32)]) -> TupleDesc {
    TupleDesc {
        names: cols.iter().map(|(n, _)| n.to_string()).collect(),
        oids: cols.iter().map(|(_, o)| *o).collect(),
    }
}

fn int_row(values: &[i64]) -> Vec<Option<Datum>> {
    values.iter().map(|v| Some(Datum::Int(*v))).collect()
}

/// An engine scripted with the statements the tests issue.
fn scripted_engine() -> Engine {
    let mut e = Engine::new();
    e.add_statement(
        "SELECT 42".to_string(),
        StatementAction::Rows(desc(&[("answer", INT4OID)]), vec![int_row(&[42])]),
    );
    e.add_statement(
        "SELECT 42, 'test', true".to_string(),
        StatementAction::Rows(
            desc(&[("a", INT4OID), ("b", TEXTOID), ("c", BOOLOID)]),
            vec![vec![
                Some(Datum::Int(42)),
                Some(Datum::Text("test".to_string())),
                Some(Datum::Bool(true)),
            ]],
        ),
    );
    e.add_statement(
        "SELECT generate_series(1, 10)".to_string(),
        StatementAction::Rows(
            desc(&[("n", INT4OID)]),
            (1..=10).map(|v| int_row(&[v])).collect(),
        ),
    );
    e.add_table("people".to_string(), desc(&[("id", INT4OID), ("nick", TEXTOID)]), vec![]);
    e.add_statement(
        "INSERT INTO people VALUES ($1, $2)".to_string(),
        StatementAction::Insert("people".to_string()),
    );
    e.add_statement(
        "SELECT id, nick FROM people".to_string(),
        StatementAction::ReadTable("people".to_string()),
    );
    e.add_statement(
        "SELECT id FROM ghosts".to_string(),
        StatementAction::ReadTable("ghosts".to_string()),
    );
    e.add_statement(
        "EXPLAIN (format json) SELECT 42".to_string(),
        StatementAction::Rows(
            desc(&[("QUERY PLAN", TEXTOID)]),
            vec![vec![Some(Datum::Text("[{\"Plan\": {}}]".to_string()))]],
        ),
    );
    e
}

#[test]
fn check_status_maps_every_success_code() {
    let expected = [
        SpiOk::Connect,
        SpiOk::Finish,
        SpiOk::Fetch,
        SpiOk::Utility,
        SpiOk::Select,
        SpiOk::Selinto,
        SpiOk::Insert,
        SpiOk::Delete,
        SpiOk::Update,
        SpiOk::Cursor,
        SpiOk::InsertReturning,
        SpiOk::DeleteReturning,
        SpiOk::UpdateReturning,
        SpiOk::Rewritten,
        SpiOk::RelRegister,
        SpiOk::RelUnregister,
        SpiOk::TdRegister,
    ];
    for (i, ok) in expected.iter().enumerate() {
        assert_eq!(Spi::check_status(i as i32 + 1), Ok(*ok));
    }
}

#[test]
fn check_status_maps_every_failure_code() {
    let expected = [
        SpiError::Connect,
        SpiError::Copy,
        SpiError::Opunknown,
        SpiError::Unconnected,
        SpiError::Cursor,
        SpiError::Argument,
        SpiError::Param,
        SpiError::Transaction,
        SpiError::Noattribute,
        SpiError::Nooutfunc,
        SpiError::Typunknown,
        SpiError::RelDuplicate,
        SpiError::RelNotFound,
    ];
    for (i, err) in expected.iter().enumerate() {
        assert_eq!(Spi::check_status(-(i as i32 + 1)), Err(*err));
    }
}

#[test]
fn select_forty_two() {
    let mut e = scripted_engine();
    let got: Option<i32> = Spi::get_one(&mut e, "SELECT 42").unwrap();
    assert_eq!(got, Some(42));
    assert_eq!(e.depth, 0);
}

#[test]
fn select_three_typed_fields() {
    let mut e = scripted_engine();
    let (a, b, c): (Option<i32>, Option<String>, Option<bool>) =
        Spi::get_three(&mut e, "SELECT 42, 'test', true").unwrap();
    assert_eq!(a, Some(42));
    assert_eq!(b, Some("test".to_string()));
    assert_eq!(c, Some(true));
}

#[test]
fn get_two_reads_first_two_ordinals() {
    let mut e = scripted_engine();
    let (a, b): (Option<i32>, Option<String>) =
        Spi::get_two(&mut e, "SELECT 42, 'test', true").unwrap();
    assert_eq!(a, Some(42));
    assert_eq!(b, Some("test".to_string()));
}

#[test]
fn unknown_statement_is_an_error() {
    let mut e = scripted_engine();
    let got: Result<Option<i32>, SpiError> = Spi::get_one(&mut e, "SELECT nonsense");
    assert_eq!(got, Err(SpiError::Opunknown));
    assert_eq!(e.depth, 0);
}

#[test]
fn missing_table_is_an_error() {
    let mut e = scripted_engine();
    let got: Result<Option<i32>, SpiError> = Spi::get_one(&mut e, "SELECT id FROM ghosts");
    assert_eq!(got, Err(SpiError::RelNotFound));
}

#[test]
fn insert_arity_mismatch_is_an_error() {
    let mut e = scripted_engine();
    let args = vec![(INT4OID, Some(Datum::Int(1)))];
    let got: Result<Option<i32>, SpiError> =
        Spi::get_one_with_args(&mut e, "INSERT INTO people VALUES ($1, $2)", args);
    assert_eq!(got, Err(SpiError::Argument));
}

#[test]
fn unconnected_execute_reports_unconnected() {
    let mut e = scripted_engine();
    assert_eq!(e.depth, 0);
    let code = e.execute("SELECT 42", false, 0);
    assert_eq!(code, -4);
    assert_eq!(Spi::check_status(code), Err(SpiError::Unconnected));
}

#[test]
fn run_executes_for_effect() {
    let mut e = scripted_engine();
    assert_eq!(Spi::run(&mut e, "SELECT 42"), Ok(()));
    assert_eq!(Spi::run(&mut e, "DROP nonsense"), Err(SpiError::Opunknown));
}

#[test]
fn explain_returns_the_plan_text() {
    let mut e = scripted_engine();
    let got = Spi::explain(&mut e, "SELECT 42").unwrap();
    assert_eq!(got, Some("[{\"Plan\": {}}]".to_string()));
}

#[test]
fn iteration_consumes_each_row_once() {
    let mut e = scripted_engine();
    let r = Spi::connect::<i64, _>(&mut e, |client| {
        let mut c = client;
        let mut table = c.select("SELECT generate_series(1, 10)", None, None).unwrap().first();
        let mut seen = 0i64;
        let mut count = 0i64;
        while let Some(row) = table.next() {
            let v: Option<i32> = row.get_datum(1);
            seen += i64::from(v.unwrap());
            count += 1;
        }
        assert_eq!(count, 10);
        assert_eq!(seen, 55);
        // the iteration is exhausted until the table is positioned again
        assert!(table.next().is_none());
        let mut table = table.first();
        let first_again = table.next().unwrap();
        assert_eq!(first_again.get_datum::<i32>(1), Some(1));
        (c, Ok(Some(seen)))
    });
    assert_eq!(r, Ok(Some(55i64)));
}

#[test]
fn get_field_outside_columns_is_no_value() {
    let mut e = scripted_engine();
    let r = Spi::connect::<i64, _>(&mut e, |client| {
        let mut c = client;
        let table = c.select("SELECT 42", Some(1), None).unwrap().first();
        // ordinals outside 1 ..= column count are no value, not an error
        assert_eq!(table.get_datum::<i32>(0), Ok(None));
        assert_eq!(table.get_datum::<i32>(-3), Ok(None));
        assert_eq!(table.get_datum::<i32>(2), Ok(None));
        assert_eq!(table.get_datum::<i32>(1), Ok(Some(42)));
        (c, Ok(None))
    });
    assert_eq!(r, Ok(None));
}

#[test]
fn field_access_before_positioning_is_rejected() {
    let mut e = scripted_engine();
    let r = Spi::connect::<i64, _>(&mut e, |client| {
        let mut c = client;
        let table = c.select("SELECT 42", Some(1), None).unwrap();
        // no call to first() yet: the table is not positioned
        assert_eq!(table.get_datum::<i32>(1), Err(SpiError::Unpositioned));
        assert_eq!(table.get_one::<i32>(), Err(SpiError::Unpositioned));
        (c, Ok(None))
    });
    assert_eq!(r, Ok(None));
}

#[test]
fn field_access_past_the_last_row_is_no_value() {
    let mut e = scripted_engine();
    let r = Spi::connect::<i64, _>(&mut e, |client| {
        let mut c = client;
        let mut table = c.select("SELECT 42", Some(1), None).unwrap().first();
        assert_eq!(table.len(), 1);
        assert!(table.next().is_some());
        // the position is now past the last row
        assert_eq!(table.get_datum::<i32>(1), Ok(None));
        (c, Ok(None))
    });
    assert_eq!(r, Ok(None));
}

#[test]
fn wrong_type_identifier_decodes_to_no_value() {
    let mut e = scripted_engine();
    let r = Spi::connect::<i64, _>(&mut e, |client| {
        let mut c = client;
        let table = c.select("SELECT 42", Some(1), None).unwrap().first();
        // the column is a four-byte integer; asking for other types is no value
        assert_eq!(table.get_datum::<bool>(1), Ok(None));
        assert_eq!(table.get_datum::<String>(1), Ok(None));
        assert_eq!(table.get_datum::<i64>(1), Ok(None));
        (c, Ok(None))
    });
    assert_eq!(r, Ok(None));
}

#[test]
fn cursor_fetches_ten_rows_in_batches_of_three() {
    let mut e = scripted_engine();
    let r = Spi::connect::<i64, _>(&mut e, |client| {
        let mut c = client;
        let mut cursor = c.open_cursor("SELECT generate_series(1, 10)", None).unwrap();
        let mut sums = Vec::new();
        loop {
            let table = cursor.fetch(&mut c, 3).unwrap();
            if table.is_empty() {
                break;
            }
            let mut table = table.first();
            let mut sum = 0i64;
            while let Some(row) = table.next() {
                sum += i64::from(row.get_datum::<i32>(1).unwrap());
            }
            sums.push(sum);
        }
        assert_eq!(sums, vec![6, 15, 24, 10]);
        cursor.close(&mut c);
        (c, Ok(None))
    });
    assert_eq!(r, Ok(None));
}

#[test]
fn cursor_name_resumes_in_a_later_scope() {
    let mut e = scripted_engine();
    // first scope: open the cursor, fetch the first batch, keep only the name
    let name = Spi::connect::<String, _>(&mut e, |client| {
        let mut c = client;
        let mut cursor = c.open_cursor("SELECT generate_series(1, 10)", None).unwrap();
        let table = cursor.fetch(&mut c, 4).unwrap().first();
        assert_eq!(table.len(), 4);
        assert_eq!(table.get_one::<i32>(), Ok(Some(1)));
        let r = Ok(Some(cursor.into_name()));
        (c, r)
    })
    .unwrap()
    .unwrap();
    // second, independent scope of the same transaction: find it by name
    let r = Spi::connect::<i64, _>(&mut e, |client| {
        let mut c = client;
        let mut cursor = c.find_cursor(name.clone()).unwrap();
        let table = cursor.fetch(&mut c, 4).unwrap().first();
        // fetching continues where the first scope left off
        assert_eq!(table.get_one::<i32>(), Ok(Some(5)));
        (c, Ok(None))
    });
    assert_eq!(r, Ok(None));
}

#[test]
fn fetch_after_close_is_an_error_not_a_crash() {
    let mut e = scripted_engine();
    let r = Spi::connect::<i64, _>(&mut e, |client| {
        let mut c = client;
        let cursor = c.open_cursor("SELECT generate_series(1, 10)", None).unwrap();
        let name = cursor.into_name();
        let handle_a = c.find_cursor(name.clone()).unwrap();
        let mut handle_b = c.find_cursor(name.clone()).unwrap();
        handle_a.close(&mut c);
        assert_eq!(handle_b.fetch(&mut c, 3).unwrap_err(), SpiError::CursorNotFound);
        assert_eq!(c.find_cursor(name).unwrap_err(), SpiError::CursorNotFound);
        (c, Ok(None))
    });
    assert_eq!(r, Ok(None));
}

#[test]
fn duplicate_and_reserved_cursor_names_are_rejected() {
    let mut e = scripted_engine();
    let r = Spi::connect::<i64, _>(&mut e, |client| {
        let mut c = client;
        let series = "SELECT generate_series(1, 10)";
        let _first = c.open_cursor_named("mine".to_string(), series, None).unwrap();
        let again = c.open_cursor_named("mine".to_string(), series, None);
        assert_eq!(again.unwrap_err(), SpiError::DuplicateCursor);
        let reserved = c.open_cursor_named("#7".to_string(), series, None);
        assert_eq!(reserved.unwrap_err(), SpiError::DuplicateCursor);
        // a cursor cannot be opened over a statement that returns no rows
        let not_rows = c.open_cursor("INSERT INTO people VALUES ($1, $2)", None);
        assert_eq!(not_rows.unwrap_err(), SpiError::Cursor);
        (c, Ok(None))
    });
    assert_eq!(r, Ok(None));
}

#[test]
fn nested_scopes_return_the_same_value_as_one_scope() {
    let mut e = scripted_engine();
    let direct: Option<i32> = Spi::get_one(&mut e, "SELECT 42").unwrap();
    let nested = Spi::connect::<i32, _>(&mut e, |client| {
        let mut outer = client;
        let inner_result = outer.connect::<i32, _>(|client_in| {
            let mut mid = client_in;
            let deepest = mid.connect::<i32, _>(|client_deep| {
                let mut c = client_deep;
                let table = c.select("SELECT 42", Some(1), None).unwrap().first();
                let r = table.get_one::<i32>();
                (c, r.map(|v| v))
            });
            (mid, deepest)
        });
        (outer, inner_result)
    })
    .unwrap();
    assert_eq!(nested, direct);
    assert_eq!(e.depth, 0);
}

#[test]
fn null_argument_inserts_an_actual_null() {
    let mut e = scripted_engine();
    let r = Spi::connect::<i64, _>(&mut e, |client| {
        let mut c = client;
        let args = vec![(INT4OID, Some(Datum::Int(7))), (TEXTOID, None)];
        let inserted = c.update("INSERT INTO people VALUES ($1, $2)", None, Some(args)).unwrap();
        assert_eq!(inserted.len(), 1);
        let mut table = c.select("SELECT id, nick FROM people", None, None).unwrap().first();
        let row = table.next().unwrap();
        assert_eq!(row.get_datum::<i32>(1), Some(7));
        // the null arrived as an actual null, not as a sentinel text value
        assert!(row.by_ordinal(2).unwrap().datum.is_none());
        assert_eq!(row.get_datum::<String>(2), None);
        (c, Ok(None))
    });
    assert_eq!(r, Ok(None));
}

#[test]
fn argument_sequences_encode_presence_and_null() {
    let args = vec![(INT4OID, Some(Datum::Int(9))), (TEXTOID, None)];
    let (types, values, nulls) = spi::args::build_args(args);
    assert_eq!(types, vec![INT4OID, TEXTOID]);
    assert_eq!(nulls, vec![spi::args::FLAG_PRESENT, spi::args::FLAG_NULL]);
    assert!(matches!(values[0], Datum::Int(9)));
    // the null argument's value slot carries the zero sentinel
    assert!(matches!(values[1], Datum::Int(0)));
}

#[test]
fn select_honors_the_row_limit() {
    let mut e = scripted_engine();
    let r = Spi::connect::<i64, _>(&mut e, |client| {
        let mut c = client;
        let table = c.select("SELECT generate_series(1, 10)", Some(2), None).unwrap();
        assert_eq!(table.len(), 2);
        assert!(!table.is_empty());
        let unlimited = c.select("SELECT generate_series(1, 10)", None, None).unwrap();
        assert_eq!(unlimited.len(), 10);
        (c, Ok(None))
    });
    assert_eq!(r, Ok(None));
}

#[test]
fn row_fields_by_ordinal_and_by_name() {
    let mut e = scripted_engine();
    let r = Spi::connect::<i64, _>(&mut e, |client| {
        let mut c = client;
        let mut table = c.select("SELECT 42, 'test', true", None, None).unwrap().first();
        let mut row = table.next().unwrap();
        assert_eq!(row.by_ordinal(1).unwrap().value::<i32>(), Some(42));
        assert_eq!(row.by_name("b").unwrap().value::<String>(), Some("test".to_string()));
        assert_eq!(row.by_name("c").unwrap().value::<bool>(), Some(true));
        assert_eq!(row.by_ordinal(0).unwrap_err(), SpiError::Noattribute);
        assert_eq!(row.by_ordinal(4).unwrap_err(), SpiError::Noattribute);
        assert_eq!(row.by_name("missing").unwrap_err(), SpiError::Noattribute);
        // replacing entries changes the decoded row only
        row.set_by_ordinal(1, 7i32).unwrap();
        assert_eq!(row.get_datum::<i32>(1), Some(7));
        row.set_by_name("b", "other".to_string()).unwrap();
        assert_eq!(row.get_datum::<String>(2), Some("other".to_string()));
        assert_eq!(row.set_by_ordinal(9, 1i32).unwrap_err(), SpiError::Noattribute);
        assert_eq!(row.set_by_name("missing", 1i32).unwrap_err(), SpiError::Noattribute);
        (c, Ok(None))
    });
    assert_eq!(r, Ok(None));
}

#[test]
fn name_converts_between_bytes_and_text() {
    let datum = Datum::Text("relation_name".to_string());
    let name = Name::from_datum(&datum, false, NAMEOID).unwrap();
    assert_eq!(name.as_str(), "relation_name");
    match name.into_datum() {
        Some(Datum::Text(s)) => assert_eq!(s, "relation_name"),
        other => panic!("expected a text datum, got {:?}", other),
    }
}

#[test]
fn name_rejects_what_cannot_fit_a_name_field() {
    let too_long = Datum::Text("x".repeat(64));
    assert!(Name::from_datum(&too_long, false, NAMEOID).is_none());
    let with_nul = Datum::Text("a\0b".to_string());
    assert!(Name::from_datum(&with_nul, false, NAMEOID).is_none());
    let not_ascii = Datum::Text("caf\u{e9}".to_string());
    assert!(Name::from_datum(&not_ascii, false, NAMEOID).is_none());
    let wrong_oid = Datum::Text("fine".to_string());
    assert!(Name::from_datum(&wrong_oid, false, TEXTOID).is_none());
    let null = Datum::Text("fine".to_string());
    assert!(Name::from_datum(&null, true, NAMEOID).is_none());
}

#[test]
fn name_reads_bytes_up_to_the_first_nul() {
    let mut bytes: NameBytes = [0; 64];
    bytes[0] = b'p';
    bytes[1] = b'g';
    let name = Name::from_bytes(bytes).unwrap();
    assert_eq!(name.as_str(), "pg");
    let empty = Name::from_bytes([0; 64]).unwrap();
    assert_eq!(empty.as_str(), "");
    // a field without its terminator, or with non-ASCII content, is rejected
    assert!(Name::from_bytes([b'x'; 64]).is_none());
    let mut latin = [0u8; 64];
    latin[0] = 0xC3;
    latin[1] = 0xA9;
    assert!(Name::from_bytes(latin).is_none());
}

#[test]
fn scopes_balance_even_when_work_fails() {
    let mut e = scripted_engine();
    assert_eq!(e.depth, 0);
    let got: Result<Option<i32>, SpiError> = Spi::get_one(&mut e, "SELECT nonsense");
    assert!(got.is_err());
    assert_eq!(e.depth, 0);
    let r = Spi::connect::<i64, _>(&mut e, |client| {
        let mut c = client;
        let failed = c.select("SELECT nonsense", None, None);
        assert!(failed.is_err());
        (c, Err(SpiError::Opunknown))
    });
    // the closure's error is returned, never swallowed, and the scope closed
    assert_eq!(r, Err(SpiError::Opunknown));
    assert_eq!(e.depth, 0);
}

#[test]
fn decoding_checks_value_ranges() {
    let big = Datum::Int(i64::from(i32::MAX) + 1);
    assert_eq!(i32::from_datum(&big, false, INT4OID), None);
    let fits = Datum::Int(i64::from(i32::MAX));
    assert_eq!(i32::from_datum(&fits, false, INT4OID), Some(i32::MAX));
    assert_eq!(i64::from_datum(&big, false, spi::datum::INT8OID), Some(i64::from(i32::MAX) + 1));
    assert_eq!(bool::from_datum(&Datum::Bool(false), false, BOOLOID), Some(false));
    assert_eq!(bool::from_datum(&Datum::Bool(false), true, BOOLOID), None);
    assert_eq!(i32::type_oid(), INT4OID);
}

#[test]
fn get_two_and_three_with_args_bind_arguments() {
    let mut e = scripted_engine();
    let args = vec![(INT4OID, Some(Datum::Int(3))), (TEXTOID, Some(Datum::Text("who".to_string())))];
    let inserted: Result<Option<i32>, SpiError> =
        Spi::get_one_with_args(&mut e, "INSERT INTO people VALUES ($1, $2)", args);
    // an insert returns no result table, so there is no first field to read
    assert_eq!(inserted, Ok(None));
    let (id, nick): (Option<i32>, Option<String>) =
        Spi::get_two_with_args(&mut e, "SELECT id, nick FROM people", vec![]).unwrap();
    assert_eq!(id, Some(3));
    assert_eq!(nick, Some("who".to_string()));
    let (a, b, c): (Option<i32>, Option<String>, Option<bool>) =
        Spi::get_three_with_args(&mut e, "SELECT 42, 'test', true", vec![]).unwrap();
    assert_eq!((a, b, c), (Some(42), Some("test".to_string()), Some(true)));
}

#[test]
fn exhausted_scope_nesting_is_a_connect_error() {
    let mut e = scripted_engine();
    e.depth = usize::MAX;
    let got: Result<Option<i32>, SpiError> = Spi::get_one(&mut e, "SELECT 42");
    assert_eq!(got, Err(SpiError::Connect));
    assert_eq!(e.depth, usize::MAX);
}

#[test]
fn mutable_field_borrows_replace_entries_in_place() {
    let mut e = scripted_engine();
    let r = Spi::connect::<i64, _>(&mut e, |client| {
        let mut c = client;
        let mut table = c.select("SELECT 42, 'test', true", None, None).unwrap().first();
        let mut row = table.next().unwrap();
        {
            let entry = row.by_ordinal_mut(1).unwrap();
            entry.datum = Some(Datum::Int(11));
        }
        assert_eq!(row.get_datum::<i32>(1), Some(11));
        {
            let entry = row.by_name_mut("c").unwrap();
            entry.datum = Some(Datum::Bool(false));
        }
        assert_eq!(row.get_datum::<bool>(3), Some(false));
        assert_eq!(row.by_ordinal_mut(0).unwrap_err(), SpiError::Noattribute);
        assert_eq!(row.by_name_mut("missing").unwrap_err(), SpiError::Noattribute);
        (c, Ok(None))
    });
    assert_eq!(r, Ok(None));
}

#[test]
fn name_columns_decode_through_the_table() {
    let mut e = scripted_engine();
    e.add_statement(
        "SELECT relname FROM pg_class".to_string(),
        StatementAction::Rows(
            desc(&[("relname", NAMEOID)]),
            vec![vec![Some(Datum::Text("pg_class".to_string()))], vec![None]],
        ),
    );
    let r = Spi::connect::<i64, _>(&mut e, |client| {
        let mut c = client;
        let mut table = c.select("SELECT relname FROM pg_class", None, None).unwrap().first();
        let name: Option<Name> = table.get_datum(1).unwrap();
        assert_eq!(name.unwrap().as_str(), "pg_class");
        table = table.first();
        let _ = table.next();
        // the second row holds a null name
        let null_name: Option<Name> = table.get_datum(1).unwrap();
        assert!(null_name.is_none());
        (c, Ok(None))
    });
    assert_eq!(r, Ok(None));
}
