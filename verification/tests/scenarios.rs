use csv_parser::errors::{DecodeFault, FieldName, ServerErrors};
use csv_parser::json::Response;
use csv_parser::parser::{parse_csv, parse_records};
use csv_parser::record::ResponseRecord;

fn record(id: &str, email: &str, name: &str, is_parent: bool) -> ResponseRecord {
    ResponseRecord {
        id: id.to_string(),
        email: email.to_string(),
        name: name.to_string(),
        is_parent,
    }
}

fn records_of(body: &str) -> Result<Vec<ResponseRecord>, ServerErrors> {
    parse_records(body.as_bytes()).map(|set| set.finalize())
}

#[test]
fn test_parse() {
    let body = r#"
id,email,name,is_parent
RvVOM5BnJx2ZRQRkOc4pFfqhCap2JboJvZCHuWnP,Sylvester41@hotmail.com,Rowland Lowe,1
"#;
    let resp = parse_csv(body.as_bytes());
    assert_eq!(resp.status, 200);
    assert_eq!(
        resp.body,
        "[{\"id\":\"RvVOM5BnJx2ZRQRkOc4pFfqhCap2JboJvZCHuWnP\",\"email\":\"Sylvester41@hotmail.com\",\"name\":\"Rowland Lowe\",\"is_parent\":false}]"
    );
}

#[test]
fn zero_maps_to_true() {
    let resp = parse_csv(b"id,email,name,is_parent\n1,a@x.com,A,0\n");
    assert_eq!(
        resp,
        Response {
            status: 200,
            body: "[{\"id\":\"1\",\"email\":\"a@x.com\",\"name\":\"A\",\"is_parent\":true}]"
                .to_string(),
        }
    );
}

#[test]
fn one_maps_to_false() {
    let resp = parse_csv(b"id,email,name,is_parent\n1,a@x.com,A,1\n");
    assert_eq!(
        resp,
        Response {
            status: 200,
            body: "[{\"id\":\"1\",\"email\":\"a@x.com\",\"name\":\"A\",\"is_parent\":false}]"
                .to_string(),
        }
    );
}

#[test]
fn two_is_refused_with_its_value() {
    let resp = parse_csv(b"id,email,name,is_parent\n1,a@x.com,A,2\n");
    assert_eq!(resp.status, 400);
    assert_eq!(
        resp.body,
        "{\"msg\":\"Invalid \\\"is_parent\\\" found in record, set to 2\"}"
    );
    assert!(resp.body.ends_with("set to 2\"}"));
    assert_eq!(
        records_of("id,email,name,is_parent\n1,a@x.com,A,2\n"),
        Err(ServerErrors::ValidationFailure { value: 2 })
    );
}

#[test]
fn header_only_gives_empty_array() {
    let resp = parse_csv(b"id,email,name,is_parent\n");
    assert_eq!(resp, Response { status: 200, body: "[]".to_string() });
    assert_eq!(records_of("id,email,name,is_parent\n"), Ok(vec![]));
    assert_eq!(records_of("id,email,name,is_parent"), Ok(vec![]));
}

#[test]
fn row_without_name_under_its_header_fails_to_deserialize() {
    let body = "id,email,is_parent\n1,a@x.com,0\n";
    assert_eq!(
        records_of(body),
        Err(ServerErrors::DeserializationFailure {
            fault: DecodeFault::MissingField(FieldName::Name)
        })
    );
    let resp = parse_csv(body.as_bytes());
    assert_eq!(resp.status, 400);
    assert_eq!(
        resp.body,
        "{\"msg\":\"CSV deserialize error: missing field `name`\"}"
    );
}

#[test]
fn row_shorter_than_header_is_a_parse_failure() {
    let body = "id,email,name,is_parent\n1,a@x.com,0\n";
    let resp = parse_csv(body.as_bytes());
    assert_eq!(resp.status, 400);
    assert_eq!(
        records_of(body),
        Err(ServerErrors::ParseFailure {
            msg: "CSV error: record 1 (line: 2, byte: 24): found record with 3 fields, but the previous record has 4 fields".to_string()
        })
    );
    assert_eq!(
        resp.body,
        "{\"msg\":\"CSV error: record 1 (line: 2, byte: 24): found record with 3 fields, but the previous record has 4 fields\"}"
    );
}

#[test]
fn rows_come_out_in_input_order() {
    let body = "id,email,name,is_parent\n3,c@x.com,C,0\n1,a@x.com,A,1\n2,b@x.com,B,0\n";
    assert_eq!(
        records_of(body),
        Ok(vec![
            record("3", "c@x.com", "C", true),
            record("1", "a@x.com", "A", false),
            record("2", "b@x.com", "B", true),
        ])
    );
    assert_eq!(
        parse_csv(body.as_bytes()).body,
        "[{\"id\":\"3\",\"email\":\"c@x.com\",\"name\":\"C\",\"is_parent\":true},{\"id\":\"1\",\"email\":\"a@x.com\",\"name\":\"A\",\"is_parent\":false},{\"id\":\"2\",\"email\":\"b@x.com\",\"name\":\"B\",\"is_parent\":true}]"
    );
}

#[test]
fn many_rows_give_as_many_records() {
    let mut body = String::from("id,email,name,is_parent\n");
    for i in 0..1000 {
        body.push_str(&format!("{},u{}@x.com,N{},{}\n", i, i, i, i % 2));
    }
    let records = records_of(&body).unwrap();
    assert_eq!(records.len(), 1000);
    for (i, r) in records.iter().enumerate() {
        assert_eq!(r, &record(&i.to_string(), &format!("u{}@x.com", i), &format!("N{}", i), i % 2 == 0));
    }
}

#[test]
fn texts_pass_through_unchanged() {
    let body = "id,email,name,is_parent\n\"  7 \",NOT-An-Email ,\"Zoë \"\"Z\"\" O'Neil, Jr.\",0\n";
    assert_eq!(
        records_of(body),
        Ok(vec![record("  7 ", "NOT-An-Email ", "Zoë \"Z\" O'Neil, Jr.", true)])
    );
    let records = records_of(body).unwrap();
    assert_eq!(records[0].id.as_bytes(), b"  7 ");
    assert_eq!(records[0].name.as_bytes(), "Zoë \"Z\" O'Neil, Jr.".as_bytes());
    assert_eq!(
        parse_csv(body.as_bytes()).body,
        "[{\"id\":\"  7 \",\"email\":\"NOT-An-Email \",\"name\":\"Zoë \\\"Z\\\" O'Neil, Jr.\",\"is_parent\":true}]"
    );
}

#[test]
fn failure_hides_rows_before_and_behind() {
    let body = "id,email,name,is_parent\n1,a@x.com,A,0\n2,b@x.com,B,7\n3,c@x.com,C,1\n";
    let resp = parse_csv(body.as_bytes());
    assert_eq!(resp.status, 400);
    assert_eq!(
        resp.body,
        "{\"msg\":\"Invalid \\\"is_parent\\\" found in record, set to 7\"}"
    );
    assert!(!resp.body.contains("a@x.com"));
    assert!(!resp.body.contains("c@x.com"));
}

#[test]
fn first_failure_wins() {
    let body = "id,email,name,is_parent\n1,a@x.com,A,x\n2,b@x.com,B,7\n";
    assert_eq!(
        records_of(body),
        Err(ServerErrors::DeserializationFailure {
            fault: DecodeFault::InvalidInteger(FieldName::IsParent)
        })
    );
    let body = "id,email,name,is_parent\n1,a@x.com,A,9\n2,b@x.com,B\n";
    assert_eq!(records_of(body), Err(ServerErrors::ValidationFailure { value: 9 }));
}

#[test]
fn missing_is_parent_column_fails_on_first_row() {
    let body = "id,email,name\n1,a@x.com,A\n2,b@x.com,B\n";
    assert_eq!(
        records_of(body),
        Err(ServerErrors::DeserializationFailure {
            fault: DecodeFault::MissingField(FieldName::IsParent)
        })
    );
    let resp = parse_csv(body.as_bytes());
    assert_eq!(resp.status, 400);
    assert_eq!(
        resp.body,
        "{\"msg\":\"CSV deserialize error: missing field `is_parent`\"}"
    );
    assert_eq!(parse_csv(b"id,email,name\n").status, 200);
}

#[test]
fn empty_input_has_no_header() {
    for body in ["", "\n", "\n\n\r\n"] {
        assert_eq!(
            records_of(body),
            Err(ServerErrors::ParseFailure { msg: "CSV error: no header row".to_string() })
        );
        let resp = parse_csv(body.as_bytes());
        assert_eq!(resp.status, 400);
        assert_eq!(resp.body, "{\"msg\":\"CSV error: no header row\"}");
    }
}

#[test]
fn columns_are_bound_by_name() {
    let body = "is_parent,extra,name,id,email\n1,zzz,A,1,a@x.com\n";
    assert_eq!(records_of(body), Ok(vec![record("1", "a@x.com", "A", false)]));
}

#[test]
fn repeated_column_is_refused() {
    let body = "id,email,name,is_parent,email\n1,a@x.com,A,0,b@x.com\n";
    assert_eq!(
        records_of(body),
        Err(ServerErrors::DeserializationFailure {
            fault: DecodeFault::DuplicateField(FieldName::Email)
        })
    );
}

#[test]
fn invalid_utf8_is_refused() {
    let body = b"id,email,name,is_parent\n1,a@x.com,\xff\xfe,0\n";
    let out = parse_records(body).map(|set| set.finalize());
    assert_eq!(
        out,
        Err(ServerErrors::DeserializationFailure {
            fault: DecodeFault::InvalidText(FieldName::Name)
        })
    );
    assert_eq!(
        parse_csv(body).body,
        "{\"msg\":\"CSV deserialize error: invalid UTF-8 in field `name`\"}"
    );
}

#[test]
fn undecodable_flag_is_a_deserialization_failure() {
    for flag in ["256", "-1", "", "abc", "1.0", " 1", "1 ", "0x", "+", "0x100", "true"] {
        let body = format!("id,email,name,is_parent\n1,a@x.com,A,{}\n", flag);
        assert_eq!(
            records_of(&body),
            Err(ServerErrors::DeserializationFailure {
                fault: DecodeFault::InvalidInteger(FieldName::IsParent)
            }),
            "flag {:?}",
            flag
        );
        assert_eq!(parse_csv(body.as_bytes()).status, 400);
    }
}

#[test]
fn flag_spellings() {
    for (flag, expected) in [("0", true), ("1", false), ("00", true), ("001", false), ("+1", false), ("+0", true), ("0x0", true), ("0x1", false), ("0x01", false)] {
        let body = format!("id,email,name,is_parent\n1,a@x.com,A,{}\n", flag);
        assert_eq!(records_of(&body), Ok(vec![record("1", "a@x.com", "A", expected)]), "flag {:?}", flag);
    }
    for (flag, value) in [("2", 2u8), ("10", 10), ("100", 100), ("255", 255), ("0xff", 255), ("0xFF", 255), ("0x1a", 26), ("099", 99)] {
        let body = format!("id,email,name,is_parent\n1,a@x.com,A,{}\n", flag);
        assert_eq!(records_of(&body), Err(ServerErrors::ValidationFailure { value }), "flag {:?}", flag);
        assert_eq!(
            parse_csv(body.as_bytes()).body,
            format!("{{\"msg\":\"Invalid \\\"is_parent\\\" found in record, set to {}\"}}", value)
        );
    }
}

#[test]
fn mismatched_quoting_does_not_crash() {
    let body = "id,email,name,is_parent\n1,\"a@x.com,A,0\n2,b@x.com,B,1\n";
    let resp = parse_csv(body.as_bytes());
    assert_eq!(resp.status, 400);
    assert!(resp.body.starts_with("{\"msg\":\"CSV error: record 1 "));
}
