//! The `openapi` command: where the document comes from, whether the directory of the
//! client may be replaced, and the client that is built from the document.

use crate::shared::Clearance;
use crate::subs::client::client_text;
use crate::subs::client::Malformed;
use crate::subs::client::write_client;
use crate::subs::json::json_document;
use crate::subs::json::json_shown;
use crate::subs::json::json_view;
use crate::subs::json::parse;
use crate::text::ascii_lower;
use crate::text::ascii_upper;
use crate::text::contains_text;
use crate::text::lower;
use crate::text::occurs_in;
use crate::text::push_char;
use crate::text::same_text;
use crate::text::upper;
use vstd::prelude::*;

verus! {

/// The address of the repository that the directory of a client is fetched from.
pub const CLIENT_TEMPLATE_URL: &'static str = "https://github.com/nidrs/tempalte-client-js";

/// The arguments of the `openapi` command.
pub struct Openapi {
    pub serve: String,
    pub out_dir: Option<String>,
    pub lang: Option<String>,
    pub yes: bool,
}

impl Openapi {
    /// The address of the document of the server `serve`.
    pub open spec fn spec_document_url(serve: Seq<char>) -> Seq<char> {
        serve + "/api-docs/openapi.json"@
    }

    /// Whether the text of a `package.json` is that of a generated client: it names the
    /// template that clients are made from.
    pub open spec fn spec_is_client_package(package: Seq<char>) -> bool {
        occurs_in("templates/api-client"@, package)
    }

    /// Whether what the user typed agrees to the removal.
    pub open spec fn spec_agrees(answer: Seq<char>) -> bool {
        occurs_in("y"@, answer)
    }

    /// Whether the output directory may be replaced at all: not where it holds a
    /// `package.json` that is not that of a generated client.
    pub open spec fn spec_replaceable(package: Option<Seq<char>>) -> bool {
        match package {
            Some(text) => Self::spec_is_client_package(text),
            None => true,
        }
    }

    /// Whether the user has to be asked before the output directory is removed.
    pub open spec fn spec_needs_confirmation(&self, exists: bool, package: Option<Seq<char>>) -> bool {
        exists && Self::spec_replaceable(package) && !self.yes
    }

    /// What is done about the output directory, given whether it exists, the text of the
    /// `package.json` in it where there is one, and what the user typed where asked.
    pub open spec fn spec_clearance(
        &self,
        exists: bool,
        package: Option<Seq<char>>,
        answer: Seq<char>,
    ) -> Clearance {
        if !exists {
            Clearance::Proceed
        } else if !Self::spec_replaceable(package) {
            Clearance::Refuse
        } else if self.yes || Self::spec_agrees(answer) {
            Clearance::RemoveFirst
        } else {
            Clearance::Refuse
        }
    }

    /// The address that the document is fetched from.
    pub fn document_url(&self) -> (url: String)
        ensures
            url@ == Self::spec_document_url(self.serve@),
    {
        let mut url = self.serve.clone();
        url.append("/api-docs/openapi.json");
        url
    }

    pub fn replaceable(package: Option<&str>) -> (replaceable: bool)
        ensures
            replaceable == Self::spec_replaceable(
                match package {
                    Some(text) => Some(text@),
                    None => None,
                },
            ),
    {
        match package {
            Some(text) => contains_text(text, "templates/api-client"),
            None => true,
        }
    }

    pub fn needs_confirmation(&self, exists: bool, package: Option<&str>) -> (ask: bool)
        ensures
            ask == self.spec_needs_confirmation(
                exists,
                match package {
                    Some(text) => Some(text@),
                    None => None,
                },
            ),
    {
        exists && Self::replaceable(package) && !self.yes
    }

    pub fn clearance(&self, exists: bool, package: Option<&str>, answer: &str) -> (clearance: Clearance)
        ensures
            clearance == self.spec_clearance(
                exists,
                match package {
                    Some(text) => Some(text@),
                    None => None,
                },
                answer@,
            ),
    {
        if !exists {
            Clearance::Proceed
        } else if !Self::replaceable(package) {
            Clearance::Refuse
        } else if self.yes || contains_text(answer, "y") {
            Clearance::RemoveFirst
        } else {
            Clearance::Refuse
        }
    }
}

/// The camel-case form of the first `upto` characters of `s`, and whether the character
/// after them is to be capitalised.
pub open spec fn camel_prefix(s: Seq<char>, upto: int) -> (Seq<char>, bool)
    decreases upto,
{
    if upto <= 0 {
        (Seq::empty(), false)
    } else {
        let (done, capitalize) = camel_prefix(s, upto - 1);
        let c = s[upto - 1];
        if upto == 1 {
            (done.push(ascii_lower(c)), capitalize)
        } else if c == '_' {
            (done, true)
        } else if capitalize {
            (done.push(ascii_upper(c)), false)
        } else {
            (done.push(c), false)
        }
    }
}

pub open spec fn camel_case(s: Seq<char>) -> Seq<char> {
    camel_prefix(s, s.len() as int).0
}

pub fn to_camel_case(s: &str) -> (result: String)
    ensures
        result@ == camel_case(s@),
{
    let mut result = String::new();
    let mut capitalize_next = false;
    let mut first = true;
    for c in it: s.chars()
        invariant
            it.seq() == s@,
            first == (it.index() == 0),
            (result@, capitalize_next) == camel_prefix(s@, it.index() as int),
    {
        if first {
            push_char(&mut result, lower(c));
            first = false;
        } else if c == '_' {
            capitalize_next = true;
        } else if capitalize_next {
            push_char(&mut result, upper(c));
            capitalize_next = false;
        } else {
            push_char(&mut result, c);
        }
    }
    result
}

/// The TypeScript type that stands for the schema type `t`.
pub open spec fn ts_type(t: Seq<char>) -> Seq<char> {
    if t == "string"@ {
        "string"@
    } else if t == "number"@ || t == "integer"@ {
        "number"@
    } else if t == "boolean"@ {
        "boolean"@
    } else if t == "array"@ {
        "any[]"@
    } else {
        "any"@
    }
}

pub fn trans_to_ts_type(t: &str) -> (r: &'static str)
    ensures
        r@ == ts_type(t@),
{
    proof {
        reveal_strlit("string");
        reveal_strlit("number");
        reveal_strlit("integer");
        reveal_strlit("boolean");
        reveal_strlit("array");
    }
    if same_text(t, "string") {
        "string"
    } else if same_text(t, "number") || same_text(t, "integer") {
        "number"
    } else if same_text(t, "boolean") {
        "boolean"
    } else if same_text(t, "array") {
        "any[]"
    } else {
        "any"
    }
}

/// An OpenAPI document, from which the client is built.
pub struct OpenapiBuilder {
    pub openapi: serde_json::Value,
}

impl OpenapiBuilder {
    /// The builder for the document that `document` is the text of, or `None` where the
    /// text is no JSON document.
    pub fn new(document: &str) -> (builder: Option<Self>)
        ensures
            builder matches Some(made) ==> json_document(document@) == Some(json_view(made.openapi)),
            builder is None ==> json_document(document@) is None,
    {
        match parse(document) {
            Ok(openapi) => Some(OpenapiBuilder { openapi }),
            Err(_) => None,
        }
    }

    /// The TypeScript text of the client for the document.
    pub fn to_ts(&self) -> (written: Result<String, Malformed>)
        ensures
            written matches Ok(text) ==> client_text(json_view(self.openapi), json_shown(self.openapi)) == Some(text@),
            written is Err ==> client_text(json_view(self.openapi), json_shown(self.openapi)) is None,
    {
        write_client(&self.openapi)
    }
}

} // verus!
