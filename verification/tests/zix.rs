use zix::commands::{create_plan, docs_plan, schema_file_name, DocsOutcome};
use zix::decode::decode_schema;
use zix::codec::encode_schema;
use zix::endpoint_args::parse_endpoint_arg;
use zix::listing::filter_json_names;
use zix::markdown::render_markdown;
use zix::schema::{ApiSchema, Endpoint};

fn b(s: &str) -> Vec<u8> {
    s.as_bytes().to_vec()
}

fn ep(path: &str, method: &str, rq: &str, rs: &str) -> Endpoint {
    Endpoint {
        path: b(path),
        method: b(method),
        request_format: b(rq),
        response_format: b(rs),
    }
}

#[test]
fn s1_create_minimal() {
    let plan = create_plan(&b("Users"), &b("1.0"), &Vec::new());
    assert_eq!(plan.file_name, b("Users.json"));
    assert_eq!(plan.message, b("Created schema: Users.json"));
    let expected = "{\n  \"name\": \"Users\",\n  \"version\": \"1.0\",\n  \"endpoints\": []\n}";
    assert_eq!(plan.content, b(expected));
    let decoded = decode_schema(&plan.content).unwrap();
    assert_eq!(decoded.name, b("Users"));
    assert_eq!(decoded.version, b("1.0"));
    assert_eq!(decoded.endpoints.len(), 0);
}

#[test]
fn s2_create_with_endpoints() {
    let args = vec![b("/users,GET,,json"), b("/users,POST,json,json")];
    let plan = create_plan(&b("Users"), &b("1.0"), &args);
    let expected = "{\n  \"name\": \"Users\",\n  \"version\": \"1.0\",\n  \"endpoints\": [\n    {\n      \"path\": \"/users\",\n      \"method\": \"GET\",\n      \"request_format\": \"\",\n      \"response_format\": \"json\"\n    },\n    {\n      \"path\": \"/users\",\n      \"method\": \"POST\",\n      \"request_format\": \"json\",\n      \"response_format\": \"json\"\n    }\n  ]\n}";
    assert_eq!(String::from_utf8(plan.content.clone()).unwrap(), expected);
    let decoded = decode_schema(&plan.content).unwrap();
    assert_eq!(decoded.endpoints.len(), 2);
    assert_eq!(decoded.endpoints[0].path, b("/users"));
    assert_eq!(decoded.endpoints[0].method, b("GET"));
    assert_eq!(decoded.endpoints[0].request_format, b(""));
    assert_eq!(decoded.endpoints[0].response_format, b("json"));
    assert_eq!(decoded.endpoints[1].path, b("/users"));
    assert_eq!(decoded.endpoints[1].method, b("POST"));
    assert_eq!(decoded.endpoints[1].request_format, b("json"));
    assert_eq!(decoded.endpoints[1].response_format, b("json"));
}

#[test]
fn s3_create_with_partial_endpoint() {
    let args = vec![b("/x")];
    let plan = create_plan(&b("Foo"), &b("0.1"), &args);
    let decoded = decode_schema(&plan.content).unwrap();
    assert_eq!(decoded.endpoints.len(), 1);
    assert_eq!(decoded.endpoints[0].path, b("/x"));
    assert_eq!(decoded.endpoints[0].method, b("GET"));
    assert_eq!(decoded.endpoints[0].request_format, b(""));
    assert_eq!(decoded.endpoints[0].response_format, b(""));
}

#[test]
fn endpoint_defaults_empty_input() {
    let e = parse_endpoint_arg(&b(""));
    assert_eq!(e.path, b(""));
    assert_eq!(e.method, b("GET"));
    assert_eq!(e.request_format, b(""));
    assert_eq!(e.response_format, b(""));
}

#[test]
fn endpoint_defaults_partial_fields() {
    let e = parse_endpoint_arg(&b("/a,POST"));
    assert_eq!(e.path, b("/a"));
    assert_eq!(e.method, b("POST"));
    assert_eq!(e.request_format, b(""));
    assert_eq!(e.response_format, b(""));
    let e = parse_endpoint_arg(&b("/a,POST,xml"));
    assert_eq!(e.request_format, b("xml"));
    assert_eq!(e.response_format, b(""));
}

#[test]
fn endpoint_defaults_trailing_comma_gives_empty_method() {
    // a present-but-empty second field is kept, not defaulted
    let e = parse_endpoint_arg(&b("/a,"));
    assert_eq!(e.path, b("/a"));
    assert_eq!(e.method, b(""));
}

#[test]
fn endpoint_overflow_discards_extras() {
    let e = parse_endpoint_arg(&b("/a,B,c,d,e,f"));
    assert_eq!(e.path, b("/a"));
    assert_eq!(e.method, b("B"));
    assert_eq!(e.request_format, b("c"));
    assert_eq!(e.response_format, b("d"));
}

#[test]
fn round_trip_plain() {
    let schema = ApiSchema {
        name: b("Users"),
        version: b("1.0"),
        endpoints: vec![ep("/users", "GET", "", "json")],
    };
    let enc = encode_schema(&schema);
    let back = decode_schema(&enc).unwrap();
    assert_eq!(back.name, schema.name);
    assert_eq!(back.version, schema.version);
    assert_eq!(back.endpoints.len(), 1);
    assert_eq!(back.endpoints[0].path, schema.endpoints[0].path);
}

#[test]
fn round_trip_special_characters() {
    let schema = ApiSchema {
        name: b("a\"b\\c\nd\te\u{1}f\u{e9}"),
        version: b("v\r\u{8}\u{c}"),
        endpoints: vec![ep("/p,q", "GE T", "\u{1f}", "\"\"")],
    };
    let enc = encode_schema(&schema);
    let back = decode_schema(&enc).unwrap();
    assert_eq!(back.name, schema.name);
    assert_eq!(back.version, schema.version);
    assert_eq!(back.endpoints[0].path, schema.endpoints[0].path);
    assert_eq!(back.endpoints[0].method, schema.endpoints[0].method);
    assert_eq!(back.endpoints[0].request_format, schema.endpoints[0].request_format);
    assert_eq!(back.endpoints[0].response_format, schema.endpoints[0].response_format);
}

#[test]
fn decode_accepts_compact_whitespace() {
    let text = b("{\"name\":\"a\",\"version\":\"b\",\"endpoints\":[]}");
    let decoded = decode_schema(&text).unwrap();
    assert_eq!(decoded.name, b("a"));
    assert_eq!(decoded.version, b("b"));
    assert_eq!(decoded.endpoints.len(), 0);
}

#[test]
fn decode_unescapes() {
    let text = b("{\"name\":\"a\\/b\\u0007\\\"\",\"version\":\"\",\"endpoints\":[]}");
    let decoded = decode_schema(&text).unwrap();
    assert_eq!(decoded.name, b("a/b\u{7}\""));
}

#[test]
fn decode_rejects_malformed() {
    assert!(decode_schema(&b("not json")).is_none());
    assert!(decode_schema(&b("{}")).is_none());
    assert!(decode_schema(&b("{\"name\":\"a\"}")).is_none());
    assert!(decode_schema(&b("{\"name\":\"a\",\"version\":\"b\",\"endpoints\":[]}x")).is_none());
    assert!(decode_schema(&b("{\"name\":\"a\",\"version\":\"b\",\"endpoints\":[")).is_none());
    assert!(decode_schema(&b("{\"version\":\"b\",\"name\":\"a\",\"endpoints\":[]}")).is_none());
}

#[test]
fn s4_list_filters_by_extension() {
    let names = vec![
        b("a.json"),
        b("b.json"),
        b("readme.md"),
        b("notes.txt"),
        b(".json"),
        b("x.JSON"),
        b("j.tar.json"),
        b("json"),
    ];
    let kept = filter_json_names(&names);
    assert_eq!(kept, vec![b("a.json"), b("b.json"), b("j.tar.json")]);
}

#[test]
fn p5_idempotent_create() {
    let args = vec![b("/users,GET,,json")];
    let first = create_plan(&b("Users"), &b("1.0"), &args);
    let second = create_plan(&b("Users"), &b("1.0"), &args);
    assert_eq!(first.content, second.content);
    assert_eq!(first.file_name, second.file_name);
}

#[test]
fn p6_docs_deterministic() {
    let args = vec![b("/users,GET,,json"), b("/users,POST,json,json")];
    let plan = create_plan(&b("Users"), &b("1.0"), &args);
    let one = render_markdown(&decode_schema(&plan.content).unwrap());
    let two = render_markdown(&decode_schema(&plan.content).unwrap());
    assert_eq!(one, two);
}

#[test]
fn s5_generate_docs_existing() {
    let args = vec![b("/users,GET,,json"), b("/users,POST,json,json")];
    let plan = create_plan(&b("Users"), &b("1.0"), &args);
    let outcome = docs_plan(&b("Users"), Some(&plan.content));
    match outcome {
        DocsOutcome::Generated { file_name, content, message } => {
            assert_eq!(file_name, b("Users_docs.md"));
            assert_eq!(message, b("Documentation generated: Users_docs.md"));
            let expected = "# API Documentation for Users\n\n## Version: 1.0\n\n## Endpoints\n\n- **Path**: /users\n  **Method**: GET\n  **Request Format**: \n  **Response Format**: json\n\n- **Path**: /users\n  **Method**: POST\n  **Request Format**: json\n  **Response Format**: json\n\n";
            assert_eq!(String::from_utf8(content).unwrap(), expected);
        }
        _ => panic!("expected generated documentation"),
    }
}

#[test]
fn s5_docs_empty_endpoints_keeps_header() {
    let plan = create_plan(&b("Bare"), &b("2"), &Vec::new());
    match docs_plan(&b("Bare"), Some(&plan.content)) {
        DocsOutcome::Generated { content, .. } => {
            let expected = "# API Documentation for Bare\n\n## Version: 2\n\n## Endpoints\n\n";
            assert_eq!(String::from_utf8(content).unwrap(), expected);
        }
        _ => panic!("expected generated documentation"),
    }
}

#[test]
fn s6_generate_docs_missing() {
    match docs_plan(&b("Ghost"), None) {
        DocsOutcome::NotFound { message } => {
            assert_eq!(message, b("Schema file Ghost.json not found."));
        }
        _ => panic!("expected the not-found outcome"),
    }
}

#[test]
fn docs_decode_failure() {
    match docs_plan(&b("Bad"), Some(&b("not json"))) {
        DocsOutcome::DecodeFailed => {}
        _ => panic!("expected a decode failure"),
    }
}

#[test]
fn schema_file_name_appends_extension() {
    assert_eq!(schema_file_name(&b("Users")), b("Users.json"));
}
