use generate_es_search_query::clauses::ValueKind;
use generate_es_search_query::filters::build_search_query;
use generate_es_search_query::filters::resolve_filters;
use generate_es_search_query::filters::FilterType;
use generate_es_search_query::filters::HostField;
use generate_es_search_query::filters::HostInstance;
use generate_es_search_query::filters::HostValue;
use generate_es_search_query::searchable::Searchable;
use generate_es_search_query::template::validate_query_str_is_json;
use generate_es_search_query::template::Binding;
use generate_es_search_query::template::Template;
use generate_es_search_query::text::remove_whitespace;
use serde_json::Value;

#[test]
fn whitespace_is_stripped_everywhere() {
    assert_eq!(remove_whitespace(" a b\t c\n"), "abc");
    assert_eq!(remove_whitespace(r#"{ "a b": "c d" }"#), r#"{"ab":"cd"}"#);
}

#[test]
fn filter_strategy_document_shape() {
    let host = HostInstance {
        fields: vec![
            HostField { name: "search".to_string(), value: HostValue::Str("b".to_string()) },
            HostField {
                name: "tags".to_string(),
                value: HostValue::StrList(vec![
                    "a".to_string(),
                    "b".to_string(),
                    "c".to_string(),
                ]),
            },
        ],
    };
    let filters = vec![
        FilterType::Terms { name: "tags".to_string(), data_type: ValueKind::Str },
        FilterType::MultiMatch {
            query: "search".to_string(),
            data_type: ValueKind::Str,
            fields: vec!["field_a".to_string(), "field_b".to_string()],
        },
    ];
    assert!(resolve_filters(&filters, &host).is_ok());
    let q = build_search_query(&filters, &host);
    assert_eq!(
        q.to_json(),
        r#"{"query":{"bool":{"must":[{"terms":{"tags":["a","b","c"]}},{"multi_match":{"fields":["field_a","field_b"],"query":"b"}}]}}}"#
    );
    let v = serde_json::from_str::<Value>(&q.to_json()).unwrap();
    assert_eq!(v["query"]["bool"]["must"][0]["terms"]["tags"][1], Value::String("b".to_string()));
}

#[test]
fn range_with_only_gte_omits_lte() {
    let host = HostInstance {
        fields: vec![
            HostField { name: "price".to_string(), value: HostValue::U32(0) },
            HostField { name: "min_price".to_string(), value: HostValue::U32(10) },
        ],
    };
    let filters = vec![FilterType::Range {
        name: "price".to_string(),
        data_type: ValueKind::U32,
        gte: Some("min_price".to_string()),
        lte: None,
    }];
    assert!(resolve_filters(&filters, &host).is_ok());
    let q = build_search_query(&filters, &host);
    let text = q.to_json();
    assert_eq!(text, r#"{"query":{"bool":{"must":[{"range":{"price":{"gte":10}}}]}}}"#);
    assert!(!text.contains("lte"));
    assert!(!text.contains("null"));
}

#[test]
fn range_with_both_bounds() {
    let host = HostInstance {
        fields: vec![
            HostField { name: "price".to_string(), value: HostValue::U32(0) },
            HostField { name: "lo".to_string(), value: HostValue::U32(3) },
            HostField { name: "hi".to_string(), value: HostValue::U32(4294967295) },
        ],
    };
    let filters = vec![FilterType::Range {
        name: "price".to_string(),
        data_type: ValueKind::U32,
        gte: Some("lo".to_string()),
        lte: Some("hi".to_string()),
    }];
    assert!(resolve_filters(&filters, &host).is_ok());
    let q = build_search_query(&filters, &host);
    assert_eq!(
        q.to_json(),
        r#"{"query":{"bool":{"must":[{"range":{"price":{"gte":3,"lte":4294967295}}}]}}}"#
    );
}

#[test]
fn empty_terms_list_serializes_to_empty_array() {
    let host = HostInstance {
        fields: vec![HostField {
            name: "tags".to_string(),
            value: HostValue::StrList(vec![]),
        }],
    };
    let filters = vec![FilterType::Terms { name: "tags".to_string(), data_type: ValueKind::Str }];
    assert!(resolve_filters(&filters, &host).is_ok());
    let q = build_search_query(&filters, &host);
    assert_eq!(q.to_json(), r#"{"query":{"bool":{"must":[{"terms":{"tags":[]}}]}}}"#);
}

#[test]
fn unresolved_member_is_a_build_time_error() {
    let host = HostInstance { fields: vec![] };
    let filters = vec![FilterType::Terms { name: "tags".to_string(), data_type: ValueKind::Str }];
    let e = resolve_filters(&filters, &host).unwrap_err();
    assert_eq!(e, "no such member: tags");
}

#[test]
fn mismatched_shape_is_a_build_time_error() {
    let host = HostInstance {
        fields: vec![HostField { name: "tags".to_string(), value: HostValue::Str("x".to_string()) }],
    };
    let filters = vec![FilterType::Terms { name: "tags".to_string(), data_type: ValueKind::Str }];
    let e = resolve_filters(&filters, &host).unwrap_err();
    assert_eq!(e, "field is not a list of the declared data_type: tags");
}

#[test]
fn multi_match_needs_target_fields() {
    let host = HostInstance {
        fields: vec![HostField { name: "q".to_string(), value: HostValue::Str("x".to_string()) }],
    };
    let filters = vec![FilterType::MultiMatch {
        query: "q".to_string(),
        data_type: ValueKind::Str,
        fields: vec![],
    }];
    let e = resolve_filters(&filters, &host).unwrap_err();
    assert_eq!(e, "multi_match needs at least one target field");
}

#[test]
fn invalid_template_is_rejected_with_a_diagnostic() {
    let e = Template::compile(r#"{"query": {"match": 1}}}"#).unwrap_err();
    assert!(!e.is_empty());
    assert!(e.starts_with("Provided JSON is invalid: "));
}

#[test]
fn valid_template_with_placeholders_is_accepted() {
    assert!(validate_query_str_is_json(
        &r#"{"query":{"match":{"title":"{{search}}","order_n":{{order_n}}}}}"#.to_string()
    )
    .is_ok());
    assert!(validate_query_str_is_json(&r#"{"title":"{{a}}{{b}}"}"#.to_string()).is_ok());
    assert!(validate_query_str_is_json(&r#"{"a":"x{{b}}"}"#.to_string()).is_ok());
    assert!(validate_query_str_is_json(&r#"{"{{k}}":"v"}"#.to_string()).is_ok());
    assert!(validate_query_str_is_json(&r#"{"title":{{x}}"#.to_string()).is_err());
}

#[test]
fn substituted_control_characters_survive_a_round_trip() {
    let t = Template::compile(r#"{"query":{"match":{"title":"{{search}}"}}}"#).unwrap();
    let original = "line one\nline two\t\"quoted\" back\\slash \u{1} end";
    let out = t.substitute(&vec![Binding {
        name: "search".to_string(),
        value: original.to_string(),
    }]);
    let v = serde_json::from_str::<Value>(&out).unwrap();
    assert_eq!(v["query"]["match"]["title"], Value::String(original.to_string()));
}

#[test]
fn substitution_replaces_every_occurrence() {
    let t = Template::compile(r#"{"a":"{{x}}","b":"{{x}}"}"#).unwrap();
    let out = t.substitute(&vec![Binding { name: "x".to_string(), value: "v".to_string() }]);
    assert_eq!(out, r#"{"a":"v","b":"v"}"#);
}

#[test]
fn searchable_parses_a_bare_list() {
    let s = Searchable::parse(r#""field_a", "field_b""#).unwrap();
    assert_eq!(s.0, vec!["field_a".to_string(), "field_b".to_string()]);
    let empty = Searchable::parse("").unwrap();
    assert!(empty.0.is_empty());
    let trailing = Searchable::parse(r#""a","#).unwrap();
    assert_eq!(trailing.0, vec!["a".to_string()]);
    assert!(Searchable::parse(r#""a" "b""#).is_err());
    assert!(Searchable::parse("nope").is_err());
}

#[test]
fn searchable_normalizes_both_written_forms() {
    let list_form = Searchable::from_meta(r#"fields("field_a","field_b")"#).unwrap();
    let name_value_form = Searchable::from_meta(r#"fields = searchable("field_a","field_b")"#)
        .unwrap();
    assert_eq!(list_form.0, name_value_form.0);
    assert_eq!(list_form.0, vec!["field_a".to_string(), "field_b".to_string()]);
    let bare = Searchable::from_meta("fields = searchable").unwrap();
    assert!(bare.0.is_empty());
    assert!(Searchable::from_meta("fields").is_err());
}

#[test]
fn template_text_is_stored_stripped() {
    let t = Template::compile("{ \"a\" : \"b c\" }").unwrap();
    assert_eq!(t.text_string(), r#"{"a":"bc"}"#);
}

#[test]
fn substituted_output_keeps_the_validated_shape() {
    let raw = r#"{"query":{"match":{"title":"{{search}}","order_n":{{order_n}}}}}"#;
    let t = Template::compile(raw).unwrap();
    let out = t.substitute(&vec![
        Binding { name: "search".to_string(), value: "hello".to_string() },
        Binding { name: "order_n".to_string(), value: "42".to_string() },
    ]);
    let masked = r#"{"query":{"match":{"title":"a","order_n":1}}}"#;
    let v_out = serde_json::from_str::<Value>(&out).unwrap();
    let v_masked = serde_json::from_str::<Value>(masked).unwrap();
    assert_eq!(
        v_out["query"]["match"]["title"],
        Value::String("hello".to_string())
    );
    assert_eq!(v_out["query"]["match"]["order_n"], Value::from(42u32));
    assert_eq!(
        v_masked["query"]["match"].as_object().unwrap().keys().collect::<Vec<_>>(),
        v_out["query"]["match"].as_object().unwrap().keys().collect::<Vec<_>>()
    );
}

#[test]
fn invalid_template_error_is_prefixed() {
    let e = Template::compile(r#"{"#).unwrap_err();
    assert!(e.starts_with("Provided JSON is invalid: "));
    assert!(e.len() > "Provided JSON is invalid: ".len());
}
