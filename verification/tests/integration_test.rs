use generate_es_search_query::clauses::Query;
use generate_es_search_query::clauses::ValueKind;
use generate_es_search_query::filters::build_search_query;
use generate_es_search_query::filters::resolve_filters;
use generate_es_search_query::filters::FilterType;
use generate_es_search_query::filters::HostField;
use generate_es_search_query::filters::HostInstance;
use generate_es_search_query::filters::HostValue;
use generate_es_search_query::template::Binding;
use generate_es_search_query::template::Template;
use generate_es_search_query::SearchQuery;
use serde_json::Value;

struct TestSearchParams {
    search: String,
}

impl TestSearchParams {
    fn get_search_query(&self) -> String {
        let t = Template::compile(
            r#"{
            "query": {
            "match": {
                "title":"{{search}}"
            }
        }}"#,
        )
        .unwrap();
        t.substitute(&vec![Binding { name: "search".to_string(), value: self.search.clone() }])
    }
}

struct MoreComplicatedTestSearchParams {
    search: String,
    order_n: u16,
}

impl MoreComplicatedTestSearchParams {
    fn get_search_query(&self) -> String {
        let t = Template::compile(
            r#"{
            "query": {
            "match": {
                "title": "{{search}}",
                "order_n": {{order_n}}
            }
        }}"#,
        )
        .unwrap();
        t.substitute(&vec![
            Binding { name: "search".to_string(), value: self.search.clone() },
            Binding { name: "order_n".to_string(), value: self.order_n.to_string() },
        ])
    }
}

#[test]
fn basic_query_substitution() {
    let t = TestSearchParams {
        search: "a search query".to_string(),
    };
    assert_eq!(t.get_search_query(), r#"{"query":{"match":{"title":"a search query"}}}"#);
}

#[test]
fn parameters_should_be_escaped() {
    let t = TestSearchParams {
        search: r#"a search query", "another_property": "another"#.to_string(),
    };

    let a = serde_json::from_str::<Value>(&t.get_search_query()).unwrap();

    assert_eq!(
        a["query"]["match"]["title"].to_string(),
        "\"a search query\\\", \\\"another_property\\\": \\\"another\"".to_string()
    )
}

#[test]
fn numbers_in_query_substitution() {
    let t = MoreComplicatedTestSearchParams {
        search: "a".to_string(),
        order_n: 16,
    };
    assert_eq!(t.get_search_query(), r#"{"query":{"match":{"title":"a","order_n":16}}}"#.to_string())
}

struct Test {
    search: String,
    tags: Vec<String>,
}

impl Test {
    fn host(&self) -> HostInstance {
        HostInstance {
            fields: vec![
                HostField { name: "search".to_string(), value: HostValue::Str(self.search.clone()) },
                HostField { name: "tags".to_string(), value: HostValue::StrList(self.tags.clone()) },
            ],
        }
    }

    fn filters() -> Vec<FilterType> {
        vec![
            FilterType::Terms { name: "tags".to_string(), data_type: ValueKind::Str },
            FilterType::MultiMatch {
                query: "search".to_string(),
                data_type: ValueKind::Str,
                fields: vec!["field_a".to_string(), "field_b".to_string()],
            },
        ]
    }
}

impl SearchQuery for Test {
    fn get_search_query(&self) -> Query {
        let host = self.host();
        let filters = Test::filters();
        resolve_filters(&filters, &host).unwrap();
        build_search_query(&filters, &host)
    }
}

#[test]
fn test() {
    let t = Test {
        search: "b".to_string(),
        tags: vec!["a".to_string(), "b".to_string(), "c".to_string()],
    };
    let a = t.get_search_query();
    println!("Q: {:?}", a.to_json());
}
