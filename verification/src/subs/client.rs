//! The text of the client that is generated from an OpenAPI document.

use crate::subs::document::collect;
use crate::subs::document::controllers_of;
use crate::subs::document::description;
use crate::subs::document::read_request;
use crate::subs::document::read_response;
use crate::subs::document::request_keys;
use crate::subs::document::response_keys;
use crate::subs::json::as_str;
use crate::subs::json::entry;
use crate::subs::json::Json;
use crate::subs::json::json_shown;
use crate::subs::json::json_view;
use crate::subs::json::JsonObject;
use crate::subs::json::JsonView;
use crate::subs::json::object_view;
use crate::subs::json::ObjectView;
use crate::subs::json::show;
use crate::subs::openapi::camel_case;
use crate::subs::openapi::to_camel_case;
use crate::subs::openapi::trans_to_ts_type;
use crate::subs::openapi::ts_type;
use crate::text::replace;
use crate::text::same_text;
use crate::text::substituted;
use vstd::prelude::*;

verus! {


/// One declaration of a key of a request or of a response.
pub struct Field {
    /// Where the key is sent: `query`, `path`, `body` and the like.
    pub location: Option<String>,
    /// The schema type that the document gives the key.
    pub kind: Option<String>,
    /// Whether the key has to be given.
    pub required: bool,
}

/// The mathematical form of a [`Field`].
pub struct FieldView {
    pub location: Option<Seq<char>>,
    pub kind: Option<Seq<char>>,
    pub required: bool,
}

impl View for Field {
    type V = FieldView;

    open spec fn view(&self) -> FieldView {
        FieldView {
            location: match self.location {
                Some(location) => Some(location@),
                None => None,
            },
            kind: match self.kind {
                Some(kind) => Some(kind@),
                None => None,
            },
            required: self.required,
        }
    }
}

/// The declarations of one key, in the order in which they were found.
pub struct Keyed {
    pub name: String,
    pub fields: Vec<Field>,
}

/// The mathematical form of a [`Keyed`].
pub struct KeyedView {
    pub name: Seq<char>,
    pub fields: Seq<FieldView>,
}

/// The views of the fields of a vector.
pub open spec fn field_views(fields: Seq<Field>) -> Seq<FieldView> {
    Seq::new(fields.len(), |i: int| fields[i]@)
}

impl View for Keyed {
    type V = KeyedView;

    open spec fn view(&self) -> KeyedView {
        KeyedView { name: self.name@, fields: field_views(self.fields@) }
    }
}

/// The views of the keys of a vector.
pub open spec fn keyed_views(keys: Seq<Keyed>) -> Seq<KeyedView> {
    Seq::new(keys.len(), |i: int| keys[i]@)
}

/// What follows the name of a key: nothing where it has to be given, a question mark
/// where it may be left out.
pub open spec fn mark(required: bool) -> Seq<char> {
    if required {
        Seq::empty()
    } else {
        "?"@
    }
}

/// The TypeScript type of a field: that of its schema type, `any` where it has none.
pub open spec fn field_type(kind: Option<Seq<char>>) -> Seq<char> {
    match kind {
        Some(kind) => ts_type(kind),
        None => ts_type("any"@),
    }
}

/// The line that declares a key by its name alone.
pub open spec fn plain_line(name: Seq<char>, field: FieldView) -> Seq<char> {
    "    ['"@ + name + "']"@ + mark(field.required) + ": "@ + field_type(field.kind) + ",\n"@
}

/// The line that declares one of several keys of one name, told apart by where it is
/// sent.
pub open spec fn located_line(name: Seq<char>, field: FieldView) -> Seq<char> {
    "    ['"@ + field.location->0 + "("@ + name + ")']"@ + mark(field.required) + ": "@ + field_type(
        field.kind,
    ) + ",\n"@
}

/// The line that lets a name that several keys share be given without saying where it
/// is sent.
pub open spec fn shared_line(name: Seq<char>) -> Seq<char> {
    "    ['"@ + name + "']?: any,\n"@
}

/// The located lines of the first `upto` fields.
pub open spec fn located_lines(name: Seq<char>, fields: Seq<FieldView>, upto: int) -> Seq<char>
    decreases upto,
{
    if upto <= 0 {
        Seq::empty()
    } else {
        located_lines(name, fields, upto - 1) + located_line(name, fields[upto - 1])
    }
}

/// The lines that declare one key: one plain line where it is declared once, else a
/// located line for each declaration and a shared line after them.
pub open spec fn key_lines(key: KeyedView) -> Seq<char> {
    if key.fields.len() > 1 {
        located_lines(key.name, key.fields, key.fields.len() as int) + shared_line(key.name)
    } else {
        plain_line(key.name, key.fields[0])
    }
}

/// Whether the lines of a key can be written: a key that is declared more than once has
/// to say for each declaration where it is sent.
pub open spec fn key_ok(key: KeyedView) -> bool {
    &&& key.fields.len() >= 1
    &&& key.fields.len() > 1 ==> forall|i: int| 0 <= i < key.fields.len() ==> (#[trigger] key.fields[i]).location is Some
}

/// The lines of the first `upto` keys.
pub open spec fn keys_lines(keys: Seq<KeyedView>, upto: int) -> Seq<char>
    decreases upto,
{
    if upto <= 0 {
        Seq::empty()
    } else {
        keys_lines(keys, upto - 1) + key_lines(keys[upto - 1])
    }
}

/// The TypeScript type of a request or a response with the given keys: `any` where there
/// is no key, else an object type with the lines of the keys.
pub open spec fn shape(keys: Seq<KeyedView>) -> Seq<char> {
    if keys.len() == 0 {
        "any"@
    } else {
        "{\n"@ + keys_lines(keys, keys.len() as int) + "  }"@
    }
}

/// Whether the type of a request or a response with the given keys can be written.
pub open spec fn shape_ok(keys: Seq<KeyedView>) -> bool {
    forall|i: int| 0 <= i < keys.len() ==> key_ok(#[trigger] keys[i])
}

/// Nothing could be made of the document: it lacks something that a client needs, or
/// holds a value of another kind where one is needed.
#[derive(Debug, Clone, Copy, PartialEq, Eq, Structural)]
pub struct Malformed;

fn write_mark(out: &mut String, required: bool)
    ensures
        final(out)@ == old(out)@ + mark(required),
{
    if !required {
        out.append("?");
    }
    proof {
        assert(out@ =~= old(out)@ + mark(required));
    }
}

fn write_type(out: &mut String, kind: &Option<String>)
    ensures
        final(out)@ == old(out)@ + field_type(
            match *kind {
                Some(kind) => Some(kind@),
                None => None,
            },
        ),
{
    match kind {
        Some(kind) => out.append(trans_to_ts_type(kind.as_str())),
        None => out.append(trans_to_ts_type("any")),
    }
}

fn write_plain_line(out: &mut String, name: &str, field: &Field)
    ensures
        final(out)@ == old(out)@ + plain_line(name@, field@),
{
    out.append("    ['");
    out.append(name);
    out.append("']");
    write_mark(out, field.required);
    out.append(": ");
    write_type(out, &field.kind);
    out.append(",\n");
    proof {
        assert(out@ =~= old(out)@ + plain_line(name@, field@));
    }
}

fn write_located_line(out: &mut String, name: &str, location: &str, field: &Field)
    requires
        field@.location == Some(location@),
    ensures
        final(out)@ == old(out)@ + located_line(name@, field@),
{
    out.append("    ['");
    out.append(location);
    out.append("(");
    out.append(name);
    out.append(")']");
    write_mark(out, field.required);
    out.append(": ");
    write_type(out, &field.kind);
    out.append(",\n");
    proof {
        assert(out@ =~= old(out)@ + located_line(name@, field@));
    }
}

fn write_key(out: &mut String, key: &Keyed) -> (done: Result<(), Malformed>)
    ensures
        done is Ok <==> key_ok(key@),
        done is Ok ==> final(out)@ == old(out)@ + key_lines(key@),
{
    if key.fields.len() > 1 {
        let mut i: usize = 0;
        while i < key.fields.len()
            invariant
                i <= key.fields@.len(),
                key.fields@.len() > 1,
                forall|k: int| 0 <= k < i ==> (#[trigger] key@.fields[k]).location is Some,
                out@ == old(out)@ + located_lines(key@.name, key@.fields, i as int),
            decreases key.fields@.len() - i,
        {
            let field = &key.fields[i];
            proof {
                assert(key@.fields[i as int] == field@);
            }
            match &field.location {
                Some(location) => {
                    write_located_line(out, key.name.as_str(), location.as_str(), field);
                    proof {
                        assert(out@ =~= old(out)@ + located_lines(key@.name, key@.fields, i as int + 1));
                    }
                },
                None => {
                    proof {
                        assert(!(key@.fields[i as int].location is Some));
                    }
                    return Err(Malformed);
                },
            }
            i += 1;
        }
        out.append("    ['");
        out.append(key.name.as_str());
        out.append("']?: any,\n");
        proof {
            assert(out@ =~= old(out)@ + key_lines(key@));
        }
        Ok(())
    } else if key.fields.len() == 1 {
        proof {
            assert(key@.fields[0] == key.fields@[0]@);
        }
        write_plain_line(out, key.name.as_str(), &key.fields[0]);
        Ok(())
    } else {
        Err(Malformed)
    }
}

/// The TypeScript type of a request or a response with the given keys.
pub fn write_shape(keys: &Vec<Keyed>) -> (written: Result<String, Malformed>)
    ensures
        written is Ok <==> shape_ok(keyed_views(keys@)),
        written matches Ok(text) ==> text@ == shape(keyed_views(keys@)),
{
    if keys.len() == 0 {
        return Ok("any".to_owned());
    }
    let ghost views = keyed_views(keys@);
    let mut out = "{\n".to_owned();
    let mut i: usize = 0;
    while i < keys.len()
        invariant
            i <= keys@.len(),
            views == keyed_views(keys@),
            forall|k: int| 0 <= k < i ==> key_ok(#[trigger] views[k]),
            out@ == "{\n"@ + keys_lines(views, i as int),
        decreases keys@.len() - i,
    {
        proof {
            assert(views[i as int] == keys@[i as int]@);
        }
        match write_key(&mut out, &keys[i]) {
            Ok(_) => {
                proof {
                    assert(out@ =~= "{\n"@ + keys_lines(views, i as int + 1));
                }
            },
            Err(_) => {
                proof {
                    assert(!key_ok(views[i as int]));
                }
                return Err(Malformed);
            },
        }
        i += 1;
    }
    out.append("  }");
    Ok(out)
}

/// The place of the first key of the given name among the first `upto` keys, or -1 where
/// none of them has it.
pub open spec fn position(keys: Seq<KeyedView>, name: Seq<char>, upto: int) -> int
    decreases upto,
{
    if upto <= 0 {
        -1
    } else if position(keys, name, upto - 1) >= 0 {
        position(keys, name, upto - 1)
    } else if keys[upto - 1].name == name {
        upto - 1
    } else {
        -1
    }
}

proof fn lemma_position_found(keys: Seq<KeyedView>, name: Seq<char>, at: int, upto: int)
    requires
        0 <= at < upto <= keys.len(),
        position(keys, name, at) == -1,
        keys[at].name == name,
    ensures
        position(keys, name, upto) == at,
    decreases upto - at,
{
    if upto > at + 1 {
        lemma_position_found(keys, name, at, upto - 1);
    }
}

/// The keys after one more declaration: it joins the declarations of the key of its name,
/// or stands for a new key behind the others.
pub open spec fn added(keys: Seq<KeyedView>, name: Seq<char>, field: FieldView) -> Seq<KeyedView> {
    let at = position(keys, name, keys.len() as int);
    if at >= 0 {
        keys.update(at, KeyedView { name: name, fields: keys[at].fields.push(field) })
    } else {
        keys.push(KeyedView { name: name, fields: seq![field] })
    }
}

/// Whether every key has a declaration.
pub open spec fn filled(keys: Seq<KeyedView>) -> bool {
    forall|i: int| 0 <= i < keys.len() ==> (#[trigger] keys[i]).fields.len() >= 1
}

pub(crate) fn add_field(keys: &mut Vec<Keyed>, name: &str, field: Field)
    requires
        filled(keyed_views(old(keys)@)),
    ensures
        keyed_views(final(keys)@) == added(keyed_views(old(keys)@), name@, field@),
        filled(keyed_views(final(keys)@)),
{
    let ghost views = keyed_views(keys@);
    let mut i: usize = 0;
    while i < keys.len()
        invariant
            i <= keys@.len(),
            keys@ == old(keys)@,
            views == keyed_views(keys@),
            filled(views),
            position(views, name@, i as int) == -1,
        decreases keys@.len() - i,
    {
        proof {
            assert(views[i as int] == keys@[i as int]@);
        }
        if same_text(keys[i].name.as_str(), name) {
            proof {
                lemma_position_found(views, name@, i as int, views.len() as int);
            }
            let ghost fields = keys@[i as int].fields@;
            keys[i].fields.push(field);
            proof {
                assert(keys@[i as int].fields@ == fields.push(field));
                assert(field_views(keys@[i as int].fields@) =~= field_views(fields).push(field@));
                assert(keyed_views(keys@) =~= added(views, name@, field@));
                assert forall|k: int| 0 <= k < views.len() implies (#[trigger] added(
                    views,
                    name@,
                    field@,
                )[k]).fields.len() >= 1 by {
                    if k != i {
                        assert(added(views, name@, field@)[k] == views[k]);
                    }
                }
            }
            return ;
        }
        i += 1;
    }
    let mut fields: Vec<Field> = Vec::new();
    fields.push(field);
    keys.push(Keyed { name: name.to_owned(), fields });
    proof {
        assert(field_views(seq![field]) =~= seq![field@]);
        assert(keyed_views(keys@) =~= added(views, name@, field@));
    }
}

/// An operation of a document, with what it is reached by.
pub struct Route<'a> {
    /// The name of the method that the client gets for the operation.
    pub router: String,
    /// The HTTP method.
    pub method: String,
    /// The path on the server.
    pub path: String,
    /// What the document says of the operation.
    pub operation: &'a JsonObject,
}

/// The mathematical form of a [`Route`].
pub struct RouteView {
    pub router: Seq<char>,
    pub method: Seq<char>,
    pub path: Seq<char>,
    pub operation: ObjectView,
}

impl<'a> View for Route<'a> {
    type V = RouteView;

    open spec fn view(&self) -> RouteView {
        RouteView { router: self.router@, method: self.method@, path: self.path@, operation: object_view(*self.operation) }
    }
}

/// The views of the routes of a vector.
pub open spec fn route_views(routes: Seq<Route>) -> Seq<RouteView> {
    Seq::new(routes.len(), |i: int| routes[i]@)
}

/// The method of the client for a route, given its description and the types of its
/// request and its response.
pub open spec fn method_text(
    route: RouteView,
    description: Seq<char>,
    request: Seq<char>,
    response: Seq<char>,
) -> Seq<char> {
    "  /**\n"@ + "   * "@ + description + "\n"@ + "   */\n"@ + "  async "@ + route.router + "(dto:"@ + request
        + " = {}) {\n"@ + "    return resHandler<"@ + response
        + ">(await this.api.request(reqHandler(dto, '"@ + route.method + "', '"@ + route.path
        + "', this.api.openapi)))\n"@ + "  }\n"@
}

/// The method of the client for a route, or `None` where the document does not say of
/// the operation what a method needs.
pub open spec fn route_text(route: RouteView) -> Option<Seq<char>> {
    match description(route.operation) {
        None => None,
        Some(description) => match request_keys(route.operation) {
            None => None,
            Some(request) => match response_keys(route.operation) {
                None => None,
                Some(response) => if shape_ok(request) && shape_ok(response) {
                    Some(method_text(route, description, shape(request), shape(response)))
                } else {
                    None
                },
            },
        },
    }
}

fn write_method(out: &mut String, route: &Route, description: &str, request: &str, response: &str)
    ensures
        final(out)@ == old(out)@ + method_text(route@, description@, request@, response@),
{
    let mut head = "  /**\n".to_owned();
    head.append("   * ");
    head.append(description);
    head.append("\n");
    head.append("   */\n");
    head.append("  async ");
    head.append(route.router.as_str());
    head.append("(dto:");
    head.append(request);
    head.append(" = {}) {\n");
    let mut body = "    return resHandler<".to_owned();
    body.append(response);
    body.append(">(await this.api.request(reqHandler(dto, '");
    body.append(route.method.as_str());
    body.append("', '");
    body.append(route.path.as_str());
    body.append("', this.api.openapi)))\n");
    body.append("  }\n");
    out.append(head.as_str());
    out.append(body.as_str());
    proof {
        assert(head@ + body@ =~= method_text(route@, description@, request@, response@));
        assert(out@ =~= old(out)@ + (head@ + body@));
    }
}

fn write_route(out: &mut String, route: &Route) -> (done: Result<(), Malformed>)
    ensures
        done is Ok <==> route_text(route@) is Some,
        done is Ok ==> final(out)@ == old(out)@ + route_text(route@)->0,
{
    let described = match entry(route.operation, "description") {
        Some(value) => match as_str(value) {
            Some(text) => text,
            None => "",
        },
        None => {
            return Err(Malformed);
        },
    };
    proof {
        reveal_strlit("");
        assert(described@ =~= description(route@.operation)->0);
    }
    let request = match read_request(route.operation) {
        Ok(keys) => keys,
        Err(_) => {
            return Err(Malformed);
        },
    };
    let request = match write_shape(&request) {
        Ok(text) => text,
        Err(_) => {
            return Err(Malformed);
        },
    };
    let response = match read_response(route.operation) {
        Ok(keys) => keys,
        Err(_) => {
            return Err(Malformed);
        },
    };
    let response = match write_shape(&response) {
        Ok(text) => text,
        Err(_) => {
            return Err(Malformed);
        },
    };
    write_method(out, route, described, request.as_str(), response.as_str());
    Ok(())
}

/// The routes of one controller, in the order in which they were first found.
pub struct Controller<'a> {
    pub name: String,
    pub routes: Vec<Route<'a>>,
}

/// The mathematical form of a [`Controller`].
pub struct ControllerView {
    pub name: Seq<char>,
    pub routes: Seq<RouteView>,
}

impl<'a> View for Controller<'a> {
    type V = ControllerView;

    open spec fn view(&self) -> ControllerView {
        ControllerView { name: self.name@, routes: route_views(self.routes@) }
    }
}

/// The views of the controllers of a vector.
pub open spec fn controller_views(controllers: Seq<Controller>) -> Seq<ControllerView> {
    Seq::new(controllers.len(), |i: int| controllers[i]@)
}

/// The place of the first route of the given name among the first `upto` routes, or -1
/// where none of them has it.
pub open spec fn route_at(routes: Seq<RouteView>, router: Seq<char>, upto: int) -> int
    decreases upto,
{
    if upto <= 0 {
        -1
    } else if route_at(routes, router, upto - 1) >= 0 {
        route_at(routes, router, upto - 1)
    } else if routes[upto - 1].router == router {
        upto - 1
    } else {
        -1
    }
}

proof fn lemma_route_found(routes: Seq<RouteView>, router: Seq<char>, at: int, upto: int)
    requires
        0 <= at < upto <= routes.len(),
        route_at(routes, router, at) == -1,
        routes[at].router == router,
    ensures
        route_at(routes, router, upto) == at,
    decreases upto - at,
{
    if upto > at + 1 {
        lemma_route_found(routes, router, at, upto - 1);
    }
}

/// The place of the first controller of the given name among the first `upto`
/// controllers, or -1 where none of them has it.
pub open spec fn controller_at(controllers: Seq<ControllerView>, name: Seq<char>, upto: int) -> int
    decreases upto,
{
    if upto <= 0 {
        -1
    } else if controller_at(controllers, name, upto - 1) >= 0 {
        controller_at(controllers, name, upto - 1)
    } else if controllers[upto - 1].name == name {
        upto - 1
    } else {
        -1
    }
}

proof fn lemma_controller_found(controllers: Seq<ControllerView>, name: Seq<char>, at: int, upto: int)
    requires
        0 <= at < upto <= controllers.len(),
        controller_at(controllers, name, at) == -1,
        controllers[at].name == name,
    ensures
        controller_at(controllers, name, upto) == at,
    decreases upto - at,
{
    if upto > at + 1 {
        lemma_controller_found(controllers, name, at, upto - 1);
    }
}

/// The routes of a controller after one more was found: it takes the place of the route
/// of its name, or stands behind the others.
pub open spec fn placed(routes: Seq<RouteView>, route: RouteView) -> Seq<RouteView> {
    let at = route_at(routes, route.router, routes.len() as int);
    if at >= 0 {
        routes.update(at, route)
    } else {
        routes.push(route)
    }
}

/// The controllers after one more route was found for the controller of the given name:
/// the route is placed among the routes of that controller, or is the first route of a new
/// controller behind the others.
pub open spec fn grouped(controllers: Seq<ControllerView>, name: Seq<char>, route: RouteView) -> Seq<
    ControllerView,
> {
    let at = controller_at(controllers, name, controllers.len() as int);
    if at >= 0 {
        controllers.update(at, ControllerView { name: name, routes: placed(controllers[at].routes, route) })
    } else {
        controllers.push(ControllerView { name: name, routes: seq![route] })
    }
}

fn place<'a>(routes: &mut Vec<Route<'a>>, route: Route<'a>)
    ensures
        route_views(final(routes)@) == placed(route_views(old(routes)@), route@),
{
    let ghost views = route_views(routes@);
    let mut i: usize = 0;
    while i < routes.len()
        invariant
            i <= routes@.len(),
            routes@ == old(routes)@,
            views == route_views(routes@),
            route_at(views, route@.router, i as int) == -1,
        decreases routes@.len() - i,
    {
        proof {
            assert(views[i as int] == routes@[i as int]@);
        }
        if same_text(routes[i].router.as_str(), route.router.as_str()) {
            proof {
                lemma_route_found(views, route@.router, i as int, views.len() as int);
            }
            routes.set(i, route);
            proof {
                assert(route_views(routes@) =~= placed(views, route@));
            }
            return ;
        }
        i += 1;
    }
    routes.push(route);
    proof {
        assert(route_views(routes@) =~= placed(views, route@));
    }
}

pub(crate) fn group<'a>(controllers: &mut Vec<Controller<'a>>, name: &str, route: Route<'a>)
    ensures
        controller_views(final(controllers)@) == grouped(controller_views(old(controllers)@), name@, route@),
{
    let ghost views = controller_views(controllers@);
    let mut i: usize = 0;
    while i < controllers.len()
        invariant
            i <= controllers@.len(),
            controllers@ == old(controllers)@,
            views == controller_views(controllers@),
            controller_at(views, name@, i as int) == -1,
        decreases controllers@.len() - i,
    {
        proof {
            assert(views[i as int] == controllers@[i as int]@);
        }
        if same_text(controllers[i].name.as_str(), name) {
            proof {
                lemma_controller_found(views, name@, i as int, views.len() as int);
            }
            place(&mut controllers[i].routes, route);
            proof {
                assert(controller_views(controllers@) =~= grouped(views, name@, route@));
            }
            return ;
        }
        i += 1;
    }
    let mut routes: Vec<Route<'a>> = Vec::new();
    routes.push(route);
    controllers.push(Controller { name: name.to_owned(), routes });
    proof {
        assert(route_views(seq![route]) =~= seq![route@]);
        assert(controller_views(controllers@) =~= grouped(views, name@, route@));
    }
}

/// The methods of the first `upto` routes.
pub open spec fn routes_text(routes: Seq<RouteView>, upto: int) -> Seq<char>
    decreases upto,
{
    if upto <= 0 {
        Seq::empty()
    } else {
        routes_text(routes, upto - 1) + route_text(routes[upto - 1])->0
    }
}

/// Whether a method can be written for every route.
pub open spec fn routes_ok(routes: Seq<RouteView>) -> bool {
    forall|i: int| 0 <= i < routes.len() ==> route_text(#[trigger] routes[i]) is Some
}

/// The class of the client for a controller: a method for each of its routes.
pub open spec fn class_text(controller: ControllerView) -> Seq<char> {
    "/* prettier-ignore */\nexport class "@ + controller.name + " {\n"@
        + "  constructor(private api: Api) {}\n"@ + routes_text(
        controller.routes,
        controller.routes.len() as int,
    ) + "}\n"@
}

/// The classes of the first `upto` controllers.
pub open spec fn classes_text(controllers: Seq<ControllerView>, upto: int) -> Seq<char>
    decreases upto,
{
    if upto <= 0 {
        Seq::empty()
    } else {
        classes_text(controllers, upto - 1) + class_text(controllers[upto - 1])
    }
}

/// Whether a class can be written for every controller.
pub open spec fn classes_ok(controllers: Seq<ControllerView>) -> bool {
    forall|i: int| 0 <= i < controllers.len() ==> routes_ok((#[trigger] controllers[i]).routes)
}

/// The name under which the client holds the class of a controller: the name of the
/// controller in camel case, without the word `Controller`.
pub open spec fn member_name(controller: Seq<char>) -> Seq<char> {
    substituted(camel_case(controller), "Controller"@, Seq::empty())
}

/// The line of the client that holds the class of a controller.
pub open spec fn member_line(controller: Seq<char>) -> Seq<char> {
    "  "@ + member_name(controller) + " = new "@ + controller + "(this);\n"@
}

/// The lines of the client for the first `upto` controllers.
pub open spec fn member_lines(controllers: Seq<ControllerView>, upto: int) -> Seq<char>
    decreases upto,
{
    if upto <= 0 {
        Seq::empty()
    } else {
        member_lines(controllers, upto - 1) + member_line(controllers[upto - 1].name)
    }
}

/// The class that holds the classes of the controllers, and the document itself, written
/// as `shown`.
pub open spec fn api_text(controllers: Seq<ControllerView>, shown: Seq<char>) -> Seq<char> {
    "/* prettier-ignore */\nexport class Api {\n"@ + member_lines(controllers, controllers.len() as int)
        + "  openapi = "@ + shown + ";\n"@ + "  constructor(public request: any) {}\n"@
        + "}\n"@
}

/// What every client begins with.
pub open spec fn header() -> Seq<char> {
    "// @ts-nocheck eslint-disable prettier-ignore\nimport { reqHandler, resHandler } from \"@nidrs/openapi-client-js\";\n\n"@
}

/// The text of the client for a document: the header, a class for each controller, and
/// the class that holds them. `None` where the document does not have the form that is
/// read.
pub open spec fn client_text(document: JsonView, shown: Seq<char>) -> Option<Seq<char>> {
    match controllers_of(document) {
        Some(controllers) => if classes_ok(controllers) {
            Some(
                header() + classes_text(controllers, controllers.len() as int) + api_text(controllers, shown),
            )
        } else {
            None
        },
        None => None,
    }
}

fn write_class(out: &mut String, controller: &Controller) -> (done: Result<(), Malformed>)
    ensures
        done is Ok <==> routes_ok(controller@.routes),
        done is Ok ==> final(out)@ == old(out)@ + class_text(controller@),
{
    let ghost routes = controller@.routes;
    let mut text = "/* prettier-ignore */\nexport class ".to_owned();
    text.append(controller.name.as_str());
    text.append(" {\n");
    text.append("  constructor(private api: Api) {}\n");
    let ghost head = text@;
    let mut i: usize = 0;
    while i < controller.routes.len()
        invariant
            i <= controller.routes@.len(),
            routes == route_views(controller.routes@),
            forall|k: int| 0 <= k < i ==> route_text(#[trigger] routes[k]) is Some,
            text@ == head + routes_text(routes, i as int),
        decreases controller.routes@.len() - i,
    {
        proof {
            assert(routes[i as int] == controller.routes@[i as int]@);
        }
        match write_route(&mut text, &controller.routes[i]) {
            Ok(_) => {
                proof {
                    assert(text@ =~= head + routes_text(routes, i as int + 1));
                }
            },
            Err(_) => {
                proof {
                    assert(!(route_text(routes[i as int]) is Some));
                }
                return Err(Malformed);
            },
        }
        i += 1;
    }
    text.append("}\n");
    out.append(text.as_str());
    proof {
        assert(text@ =~= class_text(controller@));
    }
    Ok(())
}

fn write_member(out: &mut String, controller: &str)
    ensures
        final(out)@ == old(out)@ + member_line(controller@),
{
    proof {
        reveal_strlit("Controller");
        reveal_strlit("");
    }
    let name = replace(to_camel_case(controller).as_str(), "Controller", "");
    proof {
        assert(""@ =~= Seq::<char>::empty());
    }
    out.append("  ");
    out.append(name.as_str());
    out.append(" = new ");
    out.append(controller);
    out.append("(this);\n");
    proof {
        assert(out@ =~= old(out)@ + member_line(controller@));
    }
}

fn write_api(out: &mut String, controllers: &Vec<Controller>, document: &Json)
    ensures
        final(out)@ == old(out)@ + api_text(controller_views(controllers@), json_shown(*document)),
{
    let ghost views = controller_views(controllers@);
    let mut text = "/* prettier-ignore */\nexport class Api {\n".to_owned();
    let ghost head = text@;
    let mut i: usize = 0;
    while i < controllers.len()
        invariant
            i <= controllers@.len(),
            views == controller_views(controllers@),
            text@ == head + member_lines(views, i as int),
        decreases controllers@.len() - i,
    {
        proof {
            assert(views[i as int] == controllers@[i as int]@);
        }
        write_member(&mut text, controllers[i].name.as_str());
        proof {
            assert(text@ =~= head + member_lines(views, i as int + 1));
        }
        i += 1;
    }
    text.append("  openapi = ");
    text.append(show(document).as_str());
    text.append(";\n");
    text.append("  constructor(public request: any) {}\n");
    text.append("}\n");
    out.append(text.as_str());
    proof {
        assert(text@ =~= api_text(views, json_shown(*document)));
    }
}

/// The text of the client for a document.
pub fn write_client(document: &Json) -> (written: Result<String, Malformed>)
    ensures
        written matches Ok(text) ==> client_text(json_view(*document), json_shown(*document)) == Some(text@),
        written is Err ==> client_text(json_view(*document), json_shown(*document)) is None,
{
    let controllers = match collect(document) {
        Ok(controllers) => controllers,
        Err(_) => {
            return Err(Malformed);
        },
    };
    let ghost views = controller_views(controllers@);
    let mut out =
        "// @ts-nocheck eslint-disable prettier-ignore\nimport { reqHandler, resHandler } from \"@nidrs/openapi-client-js\";\n\n".to_owned();
    let mut i: usize = 0;
    while i < controllers.len()
        invariant
            i <= controllers@.len(),
            views == controller_views(controllers@),
            controllers_of(json_view(*document)) == Some(views),
            forall|k: int| 0 <= k < i ==> routes_ok((#[trigger] views[k]).routes),
            out@ == header() + classes_text(views, i as int),
        decreases controllers@.len() - i,
    {
        proof {
            assert(views[i as int] == controllers@[i as int]@);
        }
        match write_class(&mut out, &controllers[i]) {
            Ok(_) => {
                proof {
                    assert(out@ =~= header() + classes_text(views, i as int + 1));
                }
            },
            Err(_) => {
                proof {
                    assert(!routes_ok(views[i as int].routes));
                }
                return Err(Malformed);
            },
        }
        i += 1;
    }
    write_api(&mut out, &controllers, document);
    Ok(out)
}

} // verus!
