//! What is read of an OpenAPI document: the operations under its paths, and of each the
//! keys of its request and of its response.

use crate::subs::client::add_field;
use crate::subs::client::added;
use crate::subs::client::Controller;
use crate::subs::client::controller_views;
use crate::subs::client::ControllerView;
use crate::subs::client::Field;
use crate::subs::client::FieldView;
use crate::subs::client::filled;
use crate::subs::client::group;
use crate::subs::client::grouped;
use crate::subs::client::Keyed;
use crate::subs::client::keyed_views;
use crate::subs::client::KeyedView;
use crate::subs::client::Malformed;
use crate::subs::client::Route;
use crate::subs::client::RouteView;
use crate::subs::json::as_array;
use crate::subs::json::as_bool;
use crate::subs::json::as_object;
use crate::subs::json::as_str;
use crate::subs::json::entries;
use crate::subs::json::entry;
use crate::subs::json::held_object;
use crate::subs::json::held_view;
use crate::subs::json::Json;
use crate::subs::json::json_array;
use crate::subs::json::json_entry;
use crate::subs::json::json_flag;
use crate::subs::json::json_member;
use crate::subs::json::json_object;
use crate::subs::json::json_text;
use crate::subs::json::json_view;
use crate::subs::json::json_views;
use crate::subs::json::JsonObject;
use crate::subs::json::JsonView;
use crate::subs::json::member;
use crate::subs::json::object_view;
use crate::subs::json::ObjectView;
use crate::text::same_text;
use crate::text::texts;
use vstd::prelude::*;

verus! {

/// The value under `key` of the object that `value` is, where `value` is there at all.
pub open spec fn below(value: Option<JsonView>, key: Seq<char>) -> Option<JsonView> {
    match value {
        Some(value) => json_member(value, key),
        None => None,
    }
}

/// The text of a value, where the value is there and is a string.
pub open spec fn text_in(value: Option<JsonView>) -> Option<Seq<char>> {
    match value {
        Some(value) => json_text(value),
        None => None,
    }
}

/// Whether a value is there and is `true`.
pub open spec fn holds(value: Option<JsonView>) -> bool {
    match value {
        Some(value) => json_flag(value) == Some(true),
        None => false,
    }
}

/// The declaration that a parameter of an operation makes.
pub open spec fn parameter_field(parameter: JsonView) -> FieldView {
    FieldView {
        location: text_in(json_member(parameter, "in"@)),
        kind: text_in(below(json_member(parameter, "schema"@), "type"@)),
        required: holds(json_member(parameter, "required"@)),
    }
}

/// The declaration that a property of a body makes.
pub open spec fn property_field(schema: JsonView, required: bool) -> FieldView {
    FieldView { location: Some("body"@), kind: text_in(json_member(schema, "type"@)), required }
}

fn step<'a>(value: Option<&'a Json>, key: &str) -> (found: Option<&'a Json>)
    ensures
        held_view(found) == below(held_view(value), key@),
{
    match value {
        Some(value) => member(value, key),
        None => None,
    }
}

fn text_of(value: Option<&Json>) -> (found: Option<String>)
    ensures
        found matches Some(text) ==> text_in(held_view(value)) == Some(text@),
        found is None ==> text_in(held_view(value)) is None,
{
    match value {
        Some(value) => match as_str(value) {
            Some(text) => Some(text.to_owned()),
            None => None,
        },
        None => None,
    }
}

fn is_true(value: Option<&Json>) -> (yes: bool)
    ensures
        yes == holds(held_view(value)),
{
    match value {
        Some(value) => match as_bool(value) {
            Some(flag) => flag,
            None => false,
        },
        None => false,
    }
}

fn read_parameter(parameter: &Json) -> (field: Field)
    ensures
        field@ == parameter_field(json_view(*parameter)),
{
    Field {
        location: text_of(member(parameter, "in")),
        kind: text_of(step(member(parameter, "schema"), "type")),
        required: is_true(member(parameter, "required")),
    }
}

fn read_property(schema: &Json, required: bool) -> (field: Field)
    ensures
        field@ == property_field(json_view(*schema), required),
{
    Field { location: Some("body".to_owned()), kind: text_of(member(schema, "type")), required }
}

/// The items under the key `required` of an object: those of the array there, none where
/// there is a value of another kind, and `None` where the key is missing.
pub open spec fn required_items(holder: ObjectView) -> Option<Seq<JsonView>> {
    match json_entry(holder, "required"@) {
        Some(value) => match json_array(value) {
            Some(items) => Some(items),
            None => Some(Seq::empty()),
        },
        None => None,
    }
}

/// Whether every item is a string.
pub open spec fn all_texts(items: Seq<JsonView>) -> bool {
    forall|i: int| 0 <= i < items.len() ==> (#[trigger] json_text(items[i])) is Some
}

/// The texts of items that are strings.
pub open spec fn item_texts(items: Seq<JsonView>) -> Seq<Seq<char>> {
    Seq::new(items.len(), |i: int| json_text(items[i])->0)
}

/// The names that an object lists under the key `required`, or `None` where the key is
/// missing or an item of the list is no string.
pub open spec fn required_names(holder: ObjectView) -> Option<Seq<Seq<char>>> {
    match required_items(holder) {
        Some(items) => if all_texts(items) {
            Some(item_texts(items))
        } else {
            None
        },
        None => None,
    }
}

fn read_required(holder: &JsonObject) -> (names: Result<Vec<String>, Malformed>)
    ensures
        names matches Ok(list) ==> required_names(object_view(*holder)) == Some(texts(list@)),
        names is Err ==> required_names(object_view(*holder)) is None,
{
    let mut names: Vec<String> = Vec::new();
    let value = match entry(holder, "required") {
        Some(value) => value,
        None => {
            return Err(Malformed);
        },
    };
    match as_array(value) {
        Some(items) => {
            let mut i: usize = 0;
            while i < items.len()
                invariant
                    i <= items@.len(),
                    required_items(object_view(*holder)) == Some(json_views(items@)),
                    names@.len() == i,
                    forall|k: int| 0 <= k < i ==> (#[trigger] json_text(json_views(items@)[k])) == Some(names@[k]@),
                decreases items@.len() - i,
            {
                match as_str(&items[i]) {
                    Some(text) => {
                        names.push(text.to_owned());
                    },
                    None => {
                        proof {
                            assert(!(json_text(json_views(items@)[i as int]) is Some));
                        }
                        return Err(Malformed);
                    },
                }
                i += 1;
            }
            proof {
                assert(texts(names@) =~= item_texts(json_views(items@)));
            }
            Ok(names)
        },
        None => {
            proof {
                assert(texts(names@) =~= item_texts(Seq::<JsonView>::empty()));
            }
            Ok(names)
        },
    }
}

fn listed(names: &Vec<String>, name: &str) -> (found: bool)
    ensures
        found == texts(names@).contains(name@),
{
    let mut i: usize = 0;
    while i < names.len()
        invariant
            i <= names@.len(),
            forall|k: int| 0 <= k < i ==> texts(names@)[k] != name@,
        decreases names@.len() - i,
    {
        if same_text(names[i].as_str(), name) {
            proof {
                assert(texts(names@)[i as int] == name@);
            }
            return true;
        }
        i += 1;
    }
    false
}

/// The keys after the first `upto` properties of a body have been declared behind them.
pub open spec fn with_properties(
    keys: Seq<KeyedView>,
    properties: ObjectView,
    required: Seq<Seq<char>>,
    upto: int,
) -> Seq<KeyedView>
    decreases upto,
{
    if upto <= 0 {
        keys
    } else {
        added(
            with_properties(keys, properties, required, upto - 1),
            properties[upto - 1].0,
            property_field(properties[upto - 1].1, required.contains(properties[upto - 1].0)),
        )
    }
}

fn add_properties(keys: &mut Vec<Keyed>, properties: &JsonObject, required: &Vec<String>)
    requires
        filled(keyed_views(old(keys)@)),
    ensures
        filled(keyed_views(final(keys)@)),
        keyed_views(final(keys)@) == with_properties(
            keyed_views(old(keys)@),
            object_view(*properties),
            texts(required@),
            object_view(*properties).len() as int,
        ),
{
    let pairs = entries(properties);
    let ghost first = keyed_views(keys@);
    let mut i: usize = 0;
    while i < pairs.len()
        invariant
            i <= pairs@.len(),
            pairs@.len() == object_view(*properties).len(),
            forall|k: int|
                0 <= k < pairs@.len() ==> (#[trigger] pairs@[k]).0@ == object_view(*properties)[k].0
                    && json_view(*pairs@[k].1) == object_view(*properties)[k].1,
            filled(keyed_views(keys@)),
            keyed_views(keys@) == with_properties(first, object_view(*properties), texts(required@), i as int),
        decreases pairs@.len() - i,
    {
        let name = pairs[i].0;
        let schema = pairs[i].1;
        let needed = listed(required, name.as_str());
        add_field(keys, name.as_str(), read_property(schema, needed));
        i += 1;
    }
}

/// The keys after the first `upto` parameters have been declared.
pub open spec fn with_parameters(parameters: Seq<JsonView>, upto: int) -> Seq<KeyedView>
    decreases upto,
{
    if upto <= 0 {
        Seq::empty()
    } else {
        added(
            with_parameters(parameters, upto - 1),
            text_in(json_member(parameters[upto - 1], "name"@))->0,
            parameter_field(parameters[upto - 1]),
        )
    }
}

/// Whether every parameter has a name.
pub open spec fn all_named(parameters: Seq<JsonView>) -> bool {
    forall|i: int|
        0 <= i < parameters.len() ==> (#[trigger] text_in(json_member(parameters[i], "name"@))) is Some
}

/// The keys that the parameters of an operation declare, or `None` where what stands under
/// `parameters` is no array or a parameter has no name. An operation without the key has
/// no parameters.
pub open spec fn parameter_keys(operation: ObjectView) -> Option<Seq<KeyedView>> {
    match json_entry(operation, "parameters"@) {
        Some(value) => match json_array(value) {
            Some(parameters) => if all_named(parameters) {
                Some(with_parameters(parameters, parameters.len() as int))
            } else {
                None
            },
            None => None,
        },
        None => Some(Seq::empty()),
    }
}

fn read_parameters(operation: &JsonObject) -> (read: Result<Vec<Keyed>, Malformed>)
    ensures
        read matches Ok(keys) ==> parameter_keys(object_view(*operation)) == Some(keyed_views(keys@)) && filled(
            keyed_views(keys@),
        ),
        read is Err ==> parameter_keys(object_view(*operation)) is None,
{
    let mut keys: Vec<Keyed> = Vec::new();
    proof {
        assert(keyed_views(keys@) =~= Seq::<KeyedView>::empty());
    }
    let value = match entry(operation, "parameters") {
        Some(value) => value,
        None => {
            return Ok(keys);
        },
    };
    let parameters = match as_array(value) {
        Some(parameters) => parameters,
        None => {
            return Err(Malformed);
        },
    };
    let mut i: usize = 0;
    while i < parameters.len()
        invariant
            i <= parameters@.len(),
            json_entry(object_view(*operation), "parameters"@) == Some(json_view(*value)),
            json_array(json_view(*value)) == Some(json_views(parameters@)),
            filled(keyed_views(keys@)),
            forall|k: int| 0 <= k < i ==> (#[trigger] text_in(json_member(json_views(parameters@)[k], "name"@))) is Some,
            keyed_views(keys@) == with_parameters(json_views(parameters@), i as int),
        decreases parameters@.len() - i,
    {
        let parameter = &parameters[i];
        match text_of(member(parameter, "name")) {
            Some(name) => {
                add_field(&mut keys, name.as_str(), read_parameter(parameter));
            },
            None => {
                proof {
                    assert(!(text_in(json_member(json_views(parameters@)[i as int], "name"@)) is Some));
                }
                return Err(Malformed);
            },
        }
        i += 1;
    }
    Ok(keys)
}

/// The schema that a body gives for JSON content: the object under `schema` under
/// `application/json`.
pub open spec fn json_schema(content: JsonView) -> Option<ObjectView> {
    match below(json_member(content, "application/json"@), "schema"@) {
        Some(schema) => json_object(schema),
        None => None,
    }
}

fn read_json_schema(content: &Json) -> (schema: Option<&JsonObject>)
    ensures
        held_object(schema) == json_schema(json_view(*content)),
{
    match step(member(content, "application/json"), "schema") {
        Some(schema) => as_object(schema),
        None => None,
    }
}

/// The keys of the request of an operation: those of its parameters, and behind them those
/// of the properties of its body. `None` where the document does not give them in the
/// form that is read: the body has to be an object with a schema for JSON content, the
/// schema has to have properties, and, where it has any, a list of the required ones.
pub open spec fn request_keys(operation: ObjectView) -> Option<Seq<KeyedView>> {
    match parameter_keys(operation) {
        None => None,
        Some(keys) => match json_entry(operation, "requestBody"@) {
            None => Some(keys),
            Some(body) => match json_object(body) {
                None => None,
                Some(body) => match json_entry(body, "content"@) {
                    None => None,
                    Some(content) => match json_schema(content) {
                        None => None,
                        Some(schema) => match json_entry(schema, "properties"@) {
                            None => None,
                            Some(properties) => match json_object(properties) {
                                None => None,
                                Some(properties) => if properties.len() == 0 {
                                    Some(keys)
                                } else {
                                    match required_names(schema) {
                                        None => None,
                                        Some(required) => Some(
                                            with_properties(
                                                keys,
                                                properties,
                                                required,
                                                properties.len() as int,
                                            ),
                                        ),
                                    }
                                },
                            },
                        },
                    },
                },
            },
        },
    }
}

pub(crate) fn read_request(operation: &JsonObject) -> (read: Result<Vec<Keyed>, Malformed>)
    ensures
        read matches Ok(keys) ==> request_keys(object_view(*operation)) == Some(keyed_views(keys@)) && filled(
            keyed_views(keys@),
        ),
        read is Err ==> request_keys(object_view(*operation)) is None,
{
    let mut keys = match read_parameters(operation) {
        Ok(keys) => keys,
        Err(_) => {
            return Err(Malformed);
        },
    };
    let body = match entry(operation, "requestBody") {
        Some(body) => body,
        None => {
            return Ok(keys);
        },
    };
    let body = match as_object(body) {
        Some(body) => body,
        None => {
            return Err(Malformed);
        },
    };
    let content = match entry(body, "content") {
        Some(content) => content,
        None => {
            return Err(Malformed);
        },
    };
    let schema = match read_json_schema(content) {
        Some(schema) => schema,
        None => {
            return Err(Malformed);
        },
    };
    let properties = match entry(schema, "properties") {
        Some(properties) => properties,
        None => {
            return Err(Malformed);
        },
    };
    let properties = match as_object(properties) {
        Some(properties) => properties,
        None => {
            return Err(Malformed);
        },
    };
    if entries(properties).len() == 0 {
        return Ok(keys);
    }
    let required = match read_required(schema) {
        Ok(required) => required,
        Err(_) => {
            return Err(Malformed);
        },
    };
    add_properties(&mut keys, properties, &required);
    Ok(keys)
}

/// The schema of the answer that an operation gives under a status code.
pub open spec fn answer_schema(responses: JsonView, code: Seq<char>) -> Option<ObjectView> {
    match below(json_member(responses, code), "content"@) {
        Some(content) => json_schema(content),
        None => None,
    }
}

/// The keys of the response of an operation: the properties of the schema of its answer
/// under the code 200, or under 201 where there is none under 200. An operation without
/// such a schema has no keys, and so has one whose properties are no object. `None` where
/// the operation has no `responses`, or the schema lacks `properties` or a list of the
/// required ones.
pub open spec fn response_keys(operation: ObjectView) -> Option<Seq<KeyedView>> {
    match json_entry(operation, "responses"@) {
        None => None,
        Some(responses) => {
            let schema = match answer_schema(responses, "200"@) {
                Some(schema) => Some(schema),
                None => answer_schema(responses, "201"@),
            };
            match schema {
                None => Some(Seq::empty()),
                Some(schema) => match json_entry(schema, "properties"@) {
                    None => None,
                    Some(properties) => match required_names(schema) {
                        None => None,
                        Some(required) => match json_object(properties) {
                            None => Some(Seq::empty()),
                            Some(properties) => Some(
                                with_properties(
                                    Seq::empty(),
                                    properties,
                                    required,
                                    properties.len() as int,
                                ),
                            ),
                        },
                    },
                },
            }
        },
    }
}

fn read_answer_schema<'a>(responses: &'a Json, code: &str) -> (schema: Option<&'a JsonObject>)
    ensures
        held_object(schema) == answer_schema(json_view(*responses), code@),
{
    match step(member(responses, code), "content") {
        Some(content) => read_json_schema(content),
        None => None,
    }
}

pub(crate) fn read_response(operation: &JsonObject) -> (read: Result<Vec<Keyed>, Malformed>)
    ensures
        read matches Ok(keys) ==> response_keys(object_view(*operation)) == Some(keyed_views(keys@)) && filled(
            keyed_views(keys@),
        ),
        read is Err ==> response_keys(object_view(*operation)) is None,
{
    let mut keys: Vec<Keyed> = Vec::new();
    proof {
        assert(keyed_views(keys@) =~= Seq::<KeyedView>::empty());
    }
    let responses = match entry(operation, "responses") {
        Some(responses) => responses,
        None => {
            return Err(Malformed);
        },
    };
    let schema = match read_answer_schema(responses, "200") {
        Some(schema) => Some(schema),
        None => read_answer_schema(responses, "201"),
    };
    let schema = match schema {
        Some(schema) => schema,
        None => {
            return Ok(keys);
        },
    };
    let properties = match entry(schema, "properties") {
        Some(properties) => properties,
        None => {
            return Err(Malformed);
        },
    };
    let required = match read_required(schema) {
        Ok(required) => required,
        Err(_) => {
            return Err(Malformed);
        },
    };
    match as_object(properties) {
        Some(properties) => {
            add_properties(&mut keys, properties, &required);
        },
        None => {},
    }
    Ok(keys)
}

/// The description of an operation: the text under `description`, the empty text where
/// a value of another kind stands there, and `None` where the key is missing.
pub open spec fn description(operation: ObjectView) -> Option<Seq<char>> {
    match json_entry(operation, "description"@) {
        Some(value) => match json_text(value) {
            Some(text) => Some(text),
            None => Some(Seq::empty()),
        },
        None => None,
    }
}

/// Whether an operation says which method of which controller it is: the texts under
/// `x-router` and `x-controller`.
pub open spec fn routed(operation: ObjectView) -> bool {
    &&& text_in(json_entry(operation, "x-router"@)) is Some
    &&& text_in(json_entry(operation, "x-controller"@)) is Some
}

/// The name of the controller of an operation.
pub open spec fn controller_of(operation: ObjectView) -> Seq<char> {
    text_in(json_entry(operation, "x-controller"@))->0
}

/// The route of an operation that stands under `method` under `path`.
pub open spec fn route_of(path: Seq<char>, method: Seq<char>, operation: ObjectView) -> RouteView {
    RouteView { router: text_in(json_entry(operation, "x-router"@))->0, method, path, operation }
}

/// The controllers after the first `upto` methods of a path have been looked at: each
/// that is an object is an operation and is grouped; the others are passed over.
pub open spec fn after_methods(
    controllers: Seq<ControllerView>,
    path: Seq<char>,
    methods: ObjectView,
    upto: int,
) -> Seq<ControllerView>
    decreases upto,
{
    if upto <= 0 {
        controllers
    } else {
        let before = after_methods(controllers, path, methods, upto - 1);
        match json_object(methods[upto - 1].1) {
            Some(operation) => grouped(
                before,
                controller_of(operation),
                route_of(path, methods[upto - 1].0, operation),
            ),
            None => before,
        }
    }
}

/// Whether every operation among the methods of a path says where it belongs.
pub open spec fn methods_ok(methods: ObjectView) -> bool {
    forall|i: int|
        0 <= i < methods.len() ==> (#[trigger] json_object(methods[i].1) matches Some(operation) ==> routed(
            operation,
        ))
}

/// The controllers after the first `upto` paths have been looked at: the methods of each
/// that is an object are looked at; the others are passed over.
pub open spec fn after_paths(
    controllers: Seq<ControllerView>,
    paths: ObjectView,
    upto: int,
) -> Seq<ControllerView>
    decreases upto,
{
    if upto <= 0 {
        controllers
    } else {
        let before = after_paths(controllers, paths, upto - 1);
        match json_object(paths[upto - 1].1) {
            Some(item) => after_methods(
                before,
                paths[upto - 1].0,
                item,
                item.len() as int,
            ),
            None => before,
        }
    }
}

/// Whether every operation under the paths says where it belongs.
pub open spec fn paths_ok(paths: ObjectView) -> bool {
    forall|i: int|
        0 <= i < paths.len() ==> (#[trigger] json_object(paths[i].1) matches Some(item) ==> methods_ok(
            item,
        ))
}

/// The controllers of a document with their routes: the operations under `paths`, taken in
/// the order in which the document is walked and grouped one after the other. `None` where
/// the document has no object under `paths`, or an operation does not say where it belongs.
pub open spec fn controllers_of(document: JsonView) -> Option<Seq<ControllerView>> {
    match json_member(document, "paths"@) {
        Some(paths) => match json_object(paths) {
            Some(paths) => if paths_ok(paths) {
                Some(after_paths(Seq::empty(), paths, paths.len() as int))
            } else {
                None
            },
            None => None,
        },
        None => None,
    }
}

fn collect_methods<'a>(controllers: &mut Vec<Controller<'a>>, path: &str, item: &'a JsonObject) -> (done:
    Result<(), Malformed>)
    ensures
        done is Ok <==> methods_ok(object_view(*item)),
        done is Ok ==> controller_views(final(controllers)@) == after_methods(
            controller_views(old(controllers)@),
            path@,
            object_view(*item),
            object_view(*item).len() as int,
        ),
{
    let methods = entries(item);
    let ghost first = controller_views(controllers@);
    let ghost pairs = object_view(*item);
    let mut i: usize = 0;
    while i < methods.len()
        invariant
            i <= methods@.len(),
            pairs == object_view(*item),
            methods@.len() == pairs.len(),
            forall|k: int|
                0 <= k < methods@.len() ==> (#[trigger] methods@[k]).0@ == pairs[k].0 && json_view(*methods@[k].1)
                    == pairs[k].1,
            forall|k: int|
                0 <= k < i ==> (#[trigger] json_object(pairs[k].1) matches Some(operation) ==> routed(
                    operation,
                )),
            controller_views(controllers@) == after_methods(first, path@, pairs, i as int),
        decreases methods@.len() - i,
    {
        let method = methods[i].0;
        let value = methods[i].1;
        match as_object(value) {
            Some(operation) => {
                let router = text_of(entry(operation, "x-router"));
                let controller = text_of(entry(operation, "x-controller"));
                match (router, controller) {
                    (Some(router), Some(controller)) => {
                        let route = Route { router, method: method.clone(), path: path.to_owned(), operation };
                        group(controllers, controller.as_str(), route);
                    },
                    _ => {
                        proof {
                            assert(json_object(pairs[i as int].1) == Some(object_view(*operation)));
                            assert(!routed(object_view(*operation)));
                        }
                        return Err(Malformed);
                    },
                }
            },
            None => {},
        }
        i += 1;
    }
    Ok(())
}

/// The controllers of a document with their routes.
pub fn collect<'a>(document: &'a Json) -> (collected: Result<Vec<Controller<'a>>, Malformed>)
    ensures
        collected matches Ok(controllers) ==> controllers_of(json_view(*document)) == Some(controller_views(controllers@)),
        collected is Err ==> controllers_of(json_view(*document)) is None,
{
    let node = match member(document, "paths") {
        Some(node) => node,
        None => {
            return Err(Malformed);
        },
    };
    let paths = match as_object(node) {
        Some(paths) => paths,
        None => {
            return Err(Malformed);
        },
    };
    let items = entries(paths);
    let ghost pairs = object_view(*paths);
    let mut controllers: Vec<Controller<'a>> = Vec::new();
    proof {
        assert(controller_views(controllers@) =~= Seq::<ControllerView>::empty());
    }
    let mut i: usize = 0;
    while i < items.len()
        invariant
            i <= items@.len(),
            json_member(json_view(*document), "paths"@) == Some(json_view(*node)),
            json_object(json_view(*node)) == Some(object_view(*paths)),
            pairs == object_view(*paths),
            items@.len() == pairs.len(),
            forall|k: int|
                0 <= k < items@.len() ==> (#[trigger] items@[k]).0@ == pairs[k].0 && json_view(*items@[k].1) == pairs[k].1,
            forall|k: int|
                0 <= k < i ==> (#[trigger] json_object(pairs[k].1) matches Some(item) ==> methods_ok(
                    item,
                )),
            controller_views(controllers@) == after_paths(Seq::empty(), pairs, i as int),
        decreases items@.len() - i,
    {
        let path = items[i].0;
        let value = items[i].1;
        match as_object(value) {
            Some(item) => {
                match collect_methods(&mut controllers, path.as_str(), item) {
                    Ok(_) => {},
                    Err(_) => {
                        proof {
                            assert(json_object(pairs[i as int].1) == Some(object_view(*item)));
                            assert(!methods_ok(object_view(*item)));
                        }
                        return Err(Malformed);
                    },
                }
            },
            None => {},
        }
        i += 1;
    }
    Ok(controllers)
}

} // verus!
