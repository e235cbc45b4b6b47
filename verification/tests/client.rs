use nidrs_cli::subs::client::{write_shape, Field, Keyed, Malformed};
use nidrs_cli::subs::openapi::OpenapiBuilder;

const HEADER: &str = "// @ts-nocheck eslint-disable prettier-ignore\nimport { reqHandler, resHandler } from \"@nidrs/openapi-client-js\";\n\n";

fn client(document: &str) -> Result<String, Malformed> {
    OpenapiBuilder::new(document).unwrap().to_ts()
}

fn api(members: &str, document: &str) -> String {
    let shown = serde_json::from_str::<serde_json::Value>(document).unwrap().to_string();
    format!(
        "/* prettier-ignore */\nexport class Api {{\n{members}  openapi = {shown};\n  constructor(public request: any) {{}}\n}}\n"
    )
}

fn field(location: Option<&str>, kind: Option<&str>, required: bool) -> Field {
    Field { location: location.map(|s| s.to_string()), kind: kind.map(|s| s.to_string()), required }
}

fn keyed(name: &str, fields: Vec<Field>) -> Keyed {
    Keyed { name: name.to_string(), fields }
}

#[test]
fn a_text_that_is_no_json_makes_no_builder() {
    assert!(OpenapiBuilder::new("{\"paths\": ").is_none());
    assert!(OpenapiBuilder::new("").is_none());
    assert!(OpenapiBuilder::new("{}").is_some());
}

#[test]
fn a_builder_holds_the_document() {
    let builder = OpenapiBuilder::new("{\"b\": [1, true], \"a\": \"x\"}").unwrap();
    assert_eq!(builder.openapi["a"], "x");
    assert_eq!(builder.openapi["b"][1], true);
}

#[test]
fn a_document_without_paths_is_malformed() {
    assert_eq!(client("{}"), Err(Malformed));
    assert_eq!(client("[]"), Err(Malformed));
    assert_eq!(client("{\"paths\": []}"), Err(Malformed));
    assert_eq!(client("{\"paths\": null}"), Err(Malformed));
}

#[test]
fn a_document_without_operations_has_an_empty_client() {
    let document = "{\"paths\": {}}";
    assert_eq!(
        client(document).unwrap(),
        format!(
            "{HEADER}/* prettier-ignore */\nexport class Api {{\n  openapi = {{\"paths\":{{}}}};\n  constructor(public request: any) {{}}\n}}\n"
        )
    );
}

#[test]
fn paths_and_methods_that_are_no_objects_are_passed_over() {
    let document = "{\"paths\": {\"/a\": 3, \"/b\": {\"get\": \"x\", \"parameters\": []}}}";
    assert_eq!(client(document).unwrap(), format!("{HEADER}{}", api("", document)));
}

const LIST: &str = r#"{"paths": {"/user": {"get": {
    "x-router": "list", "x-controller": "UserController", "description": "List users",
    "parameters": [{"name": "page", "in": "query", "schema": {"type": "integer"}, "required": true},
                   {"name": "q", "in": "query", "schema": {"type": "string"}}],
    "responses": {"200": {"content": {"application/json": {"schema": {
        "properties": {"items": {"type": "array"}, "total": {"type": "number"}},
        "required": ["items"]}}}}}
}}}}"#;

#[test]
fn an_operation_becomes_a_method_of_its_controller() {
    let class = "/* prettier-ignore */\nexport class UserController {\n  constructor(private api: Api) {}\n  /**\n   * List users\n   */\n  async list(dto:{\n    ['page']: number,\n    ['q']?: string,\n  } = {}) {\n    return resHandler<{\n    ['items']: any[],\n    ['total']?: number,\n  }>(await this.api.request(reqHandler(dto, 'get', '/user', this.api.openapi)))\n  }\n}\n";
    assert_eq!(
        client(LIST).unwrap(),
        format!("{HEADER}{class}{}", api("  user = new UserController(this);\n", LIST))
    );
}

#[test]
fn the_document_is_written_into_the_client_as_compact_json() {
    let text = client("{\"paths\": {}, \"info\": {\"title\": \"a b\", \"n\": [1, 2]}}").unwrap();
    assert!(text.contains("  openapi = {\"info\":{\"n\":[1,2],\"title\":\"a b\"},\"paths\":{}};\n"));
}

const BODY: &str = r#"{"paths": {"/user/{id}": {"put": {
    "x-router": "update", "x-controller": "User_admin_Controller", "description": 7,
    "parameters": [{"name": "id", "in": "path", "required": true, "schema": {"type": "string"}}],
    "requestBody": {"content": {"application/json": {"schema": {
        "properties": {"id": {"type": "integer"}, "name": {"type": "string"}, "tags": {}},
        "required": ["name"]}}}},
    "responses": {"201": {"content": {"application/json": {"schema": {
        "properties": 1, "required": 2}}}}}
}}}}"#;

#[test]
fn a_key_declared_twice_is_told_apart_by_where_it_is_sent() {
    let class = "/* prettier-ignore */\nexport class User_admin_Controller {\n  constructor(private api: Api) {}\n  /**\n   * \n   */\n  async update(dto:{\n    ['path(id)']: string,\n    ['body(id)']?: number,\n    ['id']?: any,\n    ['name']: string,\n    ['tags']?: any,\n  } = {}) {\n    return resHandler<any>(await this.api.request(reqHandler(dto, 'put', '/user/{id}', this.api.openapi)))\n  }\n}\n";
    assert_eq!(
        client(BODY).unwrap(),
        format!("{HEADER}{class}{}", api("  userAdmin = new User_admin_Controller(this);\n", BODY))
    );
}

const TWO: &str = r#"{"paths": {
    "/b": {"post": {"x-router": "make", "x-controller": "BController", "description": "", "responses": {}},
           "get": {"x-router": "find", "x-controller": "AController", "description": "", "responses": {}}},
    "/a": {"get": {"x-router": "find", "x-controller": "AController", "description": "later", "responses": {}},
           "delete": {"x-router": "drop", "x-controller": "BController", "description": "", "responses": {}}}
}}"#;

fn method(description: &str, router: &str, verb: &str, path: &str) -> String {
    format!(
        "  /**\n   * {description}\n   */\n  async {router}(dto:any = {{}}) {{\n    return resHandler<any>(await this.api.request(reqHandler(dto, '{verb}', '{path}', this.api.openapi)))\n  }}\n"
    )
}

#[test]
fn controllers_and_routes_stand_where_they_were_first_found_and_the_last_route_of_a_name_stays() {
    // The document is walked by key: "/a" before "/b", "delete" before "get" before "post".
    let b = format!(
        "/* prettier-ignore */\nexport class BController {{\n  constructor(private api: Api) {{}}\n{}{}}}\n",
        method("", "drop", "delete", "/a"),
        method("", "make", "post", "/b")
    );
    let a = format!(
        "/* prettier-ignore */\nexport class AController {{\n  constructor(private api: Api) {{}}\n{}}}\n",
        method("", "find", "get", "/b")
    );
    assert_eq!(
        client(TWO).unwrap(),
        format!(
            "{HEADER}{b}{a}{}",
            api("  b = new BController(this);\n  a = new AController(this);\n", TWO)
        )
    );
}

fn operation(rest: &str) -> String {
    format!("{{\"paths\": {{\"/x\": {{\"get\": {{{rest}}}}}}}}}")
}

const ROUTED: &str = "\"x-router\": \"r\", \"x-controller\": \"C\"";

#[test]
fn an_operation_has_to_say_where_it_belongs() {
    assert_eq!(client(&operation("\"x-controller\": \"C\", \"description\": \"\", \"responses\": {}")), Err(Malformed));
    assert_eq!(client(&operation("\"x-router\": \"r\", \"description\": \"\", \"responses\": {}")), Err(Malformed));
    assert_eq!(
        client(&operation("\"x-router\": 1, \"x-controller\": \"C\", \"description\": \"\", \"responses\": {}")),
        Err(Malformed)
    );
    assert!(client(&operation(&format!("{ROUTED}, \"description\": \"\", \"responses\": {{}}"))).is_ok());
}

#[test]
fn an_operation_needs_a_description_and_responses() {
    assert_eq!(client(&operation(&format!("{ROUTED}, \"responses\": {{}}"))), Err(Malformed));
    assert_eq!(client(&operation(&format!("{ROUTED}, \"description\": \"d\""))), Err(Malformed));
    assert!(client(&operation(&format!("{ROUTED}, \"description\": null, \"responses\": 4"))).is_ok());
}

#[test]
fn parameters_have_to_be_a_list_of_named_items() {
    let rest = |parameters: &str| {
        operation(&format!("{ROUTED}, \"description\": \"\", \"responses\": {{}}, \"parameters\": {parameters}"))
    };
    assert_eq!(client(&rest("{}")), Err(Malformed));
    assert_eq!(client(&rest("[{\"in\": \"query\"}]")), Err(Malformed));
    assert_eq!(client(&rest("[{\"name\": 1}]")), Err(Malformed));
    assert!(client(&rest("[]")).is_ok());
    let text = client(&rest("[{\"name\": \"a\"}]")).unwrap();
    assert!(text.contains("  async r(dto:{\n    ['a']?: any,\n  } = {}) {\n"));
}

#[test]
fn parameters_of_one_name_have_to_say_where_they_are_sent() {
    let rest = |parameters: &str| {
        operation(&format!("{ROUTED}, \"description\": \"\", \"responses\": {{}}, \"parameters\": {parameters}"))
    };
    assert_eq!(client(&rest("[{\"name\": \"a\", \"in\": \"query\"}, {\"name\": \"a\"}]")), Err(Malformed));
    let text = client(&rest(
        "[{\"name\": \"a\", \"in\": \"query\", \"required\": true}, {\"name\": \"b\"}, {\"name\": \"a\", \"in\": \"header\", \"schema\": {\"type\": \"boolean\"}}]",
    ))
    .unwrap();
    assert!(text.contains(
        "  async r(dto:{\n    ['query(a)']: any,\n    ['header(a)']?: boolean,\n    ['a']?: any,\n    ['b']?: any,\n  } = {}) {\n"
    ));
}

#[test]
fn a_request_body_has_to_have_a_schema_with_properties() {
    let rest = |body: &str| {
        operation(&format!("{ROUTED}, \"description\": \"\", \"responses\": {{}}, \"requestBody\": {body}"))
    };
    assert_eq!(client(&rest("3")), Err(Malformed));
    assert_eq!(client(&rest("{}")), Err(Malformed));
    assert_eq!(client(&rest("{\"content\": {}}")), Err(Malformed));
    assert_eq!(client(&rest("{\"content\": {\"application/json\": {\"schema\": []}}}")), Err(Malformed));
    assert_eq!(client(&rest("{\"content\": {\"application/json\": {\"schema\": {}}}}")), Err(Malformed));
    assert_eq!(
        client(&rest("{\"content\": {\"application/json\": {\"schema\": {\"properties\": []}}}}")),
        Err(Malformed)
    );
    assert!(client(&rest("{\"content\": {\"application/json\": {\"schema\": {\"properties\": {}}}}}")).is_ok());
}

#[test]
fn a_body_with_properties_has_to_list_the_required_ones() {
    let rest = |schema: &str| {
        operation(&format!(
            "{ROUTED}, \"description\": \"\", \"responses\": {{}}, \"requestBody\": {{\"content\": {{\"application/json\": {{\"schema\": {schema}}}}}}}"
        ))
    };
    assert_eq!(client(&rest("{\"properties\": {\"a\": {}}}")), Err(Malformed));
    assert_eq!(client(&rest("{\"properties\": {\"a\": {}}, \"required\": [1]}")), Err(Malformed));
    let text = client(&rest("{\"properties\": {\"a\": {\"type\": \"object\"}}, \"required\": null}")).unwrap();
    assert!(text.contains("  async r(dto:{\n    ['a']?: any,\n  } = {}) {\n"));
}

#[test]
fn the_answer_under_200_goes_before_the_one_under_201() {
    let rest = |responses: &str| operation(&format!("{ROUTED}, \"description\": \"\", \"responses\": {responses}"));
    let schema = |name: &str| {
        format!("{{\"content\": {{\"application/json\": {{\"schema\": {{\"properties\": {{\"{name}\": {{\"type\": \"boolean\"}}}}, \"required\": [\"{name}\"]}}}}}}}}")
    };
    let both = client(&rest(&format!("{{\"200\": {}, \"201\": {}}}", schema("ok"), schema("made")))).unwrap();
    assert!(both.contains("    return resHandler<{\n    ['ok']: boolean,\n  }>(await"));
    let created = client(&rest(&format!("{{\"201\": {}, \"404\": {}}}", schema("made"), schema("no")))).unwrap();
    assert!(created.contains("    return resHandler<{\n    ['made']: boolean,\n  }>(await"));
    let neither = client(&rest(&format!("{{\"404\": {}}}", schema("no")))).unwrap();
    assert!(neither.contains("    return resHandler<any>(await"));
}

#[test]
fn the_schema_of_an_answer_has_to_have_properties_and_a_list_of_required_ones() {
    let rest = |schema: &str| {
        operation(&format!(
            "{ROUTED}, \"description\": \"\", \"responses\": {{\"200\": {{\"content\": {{\"application/json\": {{\"schema\": {schema}}}}}}}}}"
        ))
    };
    assert_eq!(client(&rest("{}")), Err(Malformed));
    assert_eq!(client(&rest("{\"properties\": {}}")), Err(Malformed));
    assert_eq!(client(&rest("{\"required\": []}")), Err(Malformed));
    assert_eq!(client(&rest("{\"properties\": {}, \"required\": [false]}")), Err(Malformed));
    assert!(client(&rest("{\"properties\": {}, \"required\": []}")).is_ok());
    assert!(client(&rest("[]")).is_ok());
}

#[test]
fn no_keys_give_the_type_any() {
    assert_eq!(write_shape(&vec![]), Ok("any".to_string()));
}

#[test]
fn one_declaration_gives_a_plain_line() {
    assert_eq!(
        write_shape(&vec![keyed("a", vec![field(None, Some("integer"), true)]), keyed("b", vec![field(None, None, false)])]),
        Ok("{\n    ['a']: number,\n    ['b']?: any,\n  }".to_string())
    );
}

#[test]
fn several_declarations_give_located_lines_and_a_shared_one() {
    assert_eq!(
        write_shape(&vec![keyed(
            "id",
            vec![field(Some("path"), Some("string"), true), field(Some("body"), Some("nothing"), false)]
        )]),
        Ok("{\n    ['path(id)']: string,\n    ['body(id)']?: any,\n    ['id']?: any,\n  }".to_string())
    );
}

#[test]
fn a_key_without_a_declaration_or_without_a_location_among_several_is_malformed() {
    assert_eq!(write_shape(&vec![keyed("a", vec![])]), Err(Malformed));
    assert_eq!(
        write_shape(&vec![keyed("a", vec![field(Some("query"), None, false), field(None, None, false)])]),
        Err(Malformed)
    );
}
