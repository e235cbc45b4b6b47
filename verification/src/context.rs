//! The context of a run: the state that the steps of a pipeline share, as a registry of
//! values of declared types under string keys.

use crate::failure::error_of;
use crate::failure::error_text;
use metamap::Metamap;
use vstd::prelude::*;

verus! {

/// `metamap::Metamap`, the map that a context keeps its values in.
#[verifier::external_type_specification]
#[verifier::external_body]
pub struct ExMetamap(Metamap);

/// A datum that a context can hold. The variant is the declared type of the value.
#[derive(Debug, PartialEq, Eq)]
pub enum Datum {
    Text(String),
    Integer(i64),
    Flag(bool),
}

/// The mathematical form of a [`Datum`].
pub enum DatumView {
    Text(Seq<char>),
    Integer(i64),
    Flag(bool),
}

impl View for Datum {
    type V = DatumView;

    open spec fn view(&self) -> DatumView {
        match self {
            Datum::Text(text) => DatumView::Text(text@),
            Datum::Integer(number) => DatumView::Integer(*number),
            Datum::Flag(flag) => DatumView::Flag(*flag),
        }
    }
}

/// The mathematical form of a [`Context`]: the value under each key that is set.
pub type ContextView = Map<Seq<char>, DatumView>;

/// The entries of a `Metamap` that hold a [`Datum`], by key; entries of a map that it
/// extends are not among them.
pub uninterp spec fn stored_values(m: Metamap) -> Map<Seq<char>, DatumView>;

/// Whether a `Metamap` extends another map, in which `get` then looks for what the map
/// itself does not hold.
pub uninterp spec fn has_fallback(m: Metamap) -> bool;

/// `Metamap::new`: a map with no entry, which extends no other map.
#[verifier::external_body]
fn map_new() -> (m: Metamap)
    ensures
        stored_values(m) == ContextView::empty(),
        !has_fallback(m),
{
    Metamap::new()
}

/// `Metamap::set` with a [`Datum`]: puts the value under the key, in place of whatever
/// stood there, and leaves the other entries as they were. It is taken not to unwind: it
/// can fail only for want of memory.
#[verifier::external_body]
fn map_set(m: &mut Metamap, key: &str, value: Datum)
    ensures
        stored_values(*final(m)) == stored_values(*old(m)).insert(key@, value@),
        has_fallback(*final(m)) == has_fallback(*old(m)),
    no_unwind
{
    m.set(key, value);
}

/// `Metamap::get` for a [`Datum`]: on a map that extends no other, the value under the
/// key, or `None` where the map holds no `Datum` under it.
#[verifier::external_body]
fn map_get<'a>(m: &'a Metamap, key: &str) -> (found: Option<&'a Datum>)
    requires
        !has_fallback(*m),
    ensures
        match found {
            Some(value) => stored_values(*m).dom().contains(key@) && value@ == stored_values(
                *m,
            )[key@],
            None => !stored_values(*m).dom().contains(key@),
        },
{
    m.get::<Datum>(key)
}

/// `Metamap::get_mut` for a [`Datum`]: the value under the key, to be changed in place,
/// or `None` where the map holds no `Datum` under it. The other entries stay. It does not
/// unwind: it looks the key up and does no more.
#[verifier::external_body]
fn map_get_mut<'a>(m: &'a mut Metamap, key: &str) -> (found: Option<&'a mut Datum>)
    ensures
        has_fallback(*final(m)) == has_fallback(*old(m)),
        match found {
            Some(value) => {
                &&& stored_values(*old(m)).dom().contains(key@)
                &&& value@ == stored_values(*old(m))[key@]
                &&& stored_values(*final(m)) == stored_values(*old(m)).insert(key@, final(value)@)
            },
            None => {
                &&& !stored_values(*old(m)).dom().contains(key@)
                &&& stored_values(*final(m)) == stored_values(*old(m))
            },
        },
    no_unwind
{
    m.get_mut::<Datum>(key)
}

/// Why a lookup in a context failed.
#[derive(Debug, Clone, Copy, PartialEq, Eq, Structural)]
pub enum ContextAccessError {
    /// Nothing is set under the key.
    KeyNotFound,
    /// The value under the key is not of the type that was asked for.
    TypeMismatch,
}

impl ContextAccessError {
    /// The text of the error.
    pub open spec fn text(self) -> Seq<char> {
        match self {
            ContextAccessError::KeyNotFound => "key not found in the context"@,
            ContextAccessError::TypeMismatch => "the value in the context has another type"@,
        }
    }

    pub fn message(&self) -> (message: String)
        ensures
            message@ == self.text(),
    {
        match self {
            ContextAccessError::KeyNotFound => "key not found in the context".to_owned(),
            ContextAccessError::TypeMismatch => "the value in the context has another type".to_owned(),
        }
    }

    /// The error as one that a handler can return: to a flow a failed lookup is a failure
    /// of the step like any other.
    pub fn into_error(self) -> (error: anyhow::Error)
        ensures
            error_text(error) == self.text(),
    {
        error_of(self.message())
    }
}

/// The declared types of the values of a context.
#[derive(Debug, Clone, Copy, PartialEq, Eq, Structural)]
pub enum Kind {
    Text,
    Integer,
    Flag,
}

impl DatumView {
    /// The declared type of the value.
    pub open spec fn kind(self) -> Kind {
        match self {
            DatumView::Text(_) => Kind::Text,
            DatumView::Integer(_) => Kind::Integer,
            DatumView::Flag(_) => Kind::Flag,
        }
    }
}

/// Why a lookup of `key` for a value of the type `wanted` fails, or `None` where it
/// succeeds: the key has to be set, and to a value of that type.
pub open spec fn refusal(values: ContextView, key: Seq<char>, wanted: Kind) -> Option<
    ContextAccessError,
> {
    if !values.dom().contains(key) {
        Some(ContextAccessError::KeyNotFound)
    } else if values[key].kind() != wanted {
        Some(ContextAccessError::TypeMismatch)
    } else {
        None
    }
}

/// The state that the steps of one run share. Each run has a context of its own; the
/// handlers read and change it in turn, and the caller reads it when the run is over.
pub struct Context {
    map: Metamap,
}

impl View for Context {
    type V = Map<Seq<char>, DatumView>;

    closed spec fn view(&self) -> Map<Seq<char>, DatumView> {
        stored_values(self.map)
    }
}

impl Context {
    #[verifier::type_invariant]
    spec fn stands_alone(self) -> bool {
        !has_fallback(self.map)
    }

    /// A context in which no key is set.
    pub fn new() -> (ctx: Self)
        ensures
            ctx@ == ContextView::empty(),
    {
        Context { map: map_new() }
    }

    /// Sets `key` to `value`, whatever it was set to before.
    pub fn set(&mut self, key: &str, value: Datum)
        ensures
            final(self)@ == old(self)@.insert(key@, value@),
    {
        proof {
            use_type_invariant(&*self);
        }
        map_set(&mut self.map, key, value);
    }

    /// The text under `key`.
    pub fn get_text(&self, key: &str) -> (found: Result<&String, ContextAccessError>)
        ensures
            match found {
                Ok(text) => refusal(self@, key@, Kind::Text) is None && self@[key@] == DatumView::Text(text@),
                Err(reason) => refusal(self@, key@, Kind::Text) == Some(reason),
            },
    {
        proof {
            use_type_invariant(self);
        }
        match map_get(&self.map, key) {
            Some(Datum::Text(text)) => Ok(text),
            Some(_) => Err(ContextAccessError::TypeMismatch),
            None => Err(ContextAccessError::KeyNotFound),
        }
    }

    /// The text under `key`, to be changed in place. What the caller leaves in it is what
    /// the context then holds under `key`.
    pub fn get_text_mut(&mut self, key: &str) -> (found: Result<&mut String, ContextAccessError>)
        ensures
            match found {
                Ok(text) => {
                    &&& refusal(old(self)@, key@, Kind::Text) is None
                    &&& old(self)@[key@] == DatumView::Text(text@)
                    &&& final(self)@ == old(self)@.insert(key@, DatumView::Text(final(text)@))
                },
                Err(reason) => {
                    &&& refusal(old(self)@, key@, Kind::Text) == Some(reason)
                    &&& final(self)@ == old(self)@
                },
            },
    {
        proof {
            use_type_invariant(&*self);
        }
        match map_get_mut(&mut self.map, key) {
            Some(Datum::Text(text)) => Ok(text),
            Some(_) => Err(ContextAccessError::TypeMismatch),
            None => Err(ContextAccessError::KeyNotFound),
        }
    }

    /// The integer under `key`.
    pub fn get_integer(&self, key: &str) -> (found: Result<&i64, ContextAccessError>)
        ensures
            match found {
                Ok(number) => refusal(self@, key@, Kind::Integer) is None && self@[key@] == DatumView::Integer(*number),
                Err(reason) => refusal(self@, key@, Kind::Integer) == Some(reason),
            },
    {
        proof {
            use_type_invariant(self);
        }
        match map_get(&self.map, key) {
            Some(Datum::Integer(number)) => Ok(number),
            Some(_) => Err(ContextAccessError::TypeMismatch),
            None => Err(ContextAccessError::KeyNotFound),
        }
    }

    /// The integer under `key`, to be changed in place.
    pub fn get_integer_mut(&mut self, key: &str) -> (found: Result<&mut i64, ContextAccessError>)
        ensures
            match found {
                Ok(number) => {
                    &&& refusal(old(self)@, key@, Kind::Integer) is None
                    &&& old(self)@[key@] == DatumView::Integer(*number)
                    &&& final(self)@ == old(self)@.insert(key@, DatumView::Integer(*final(number)))
                },
                Err(reason) => {
                    &&& refusal(old(self)@, key@, Kind::Integer) == Some(reason)
                    &&& final(self)@ == old(self)@
                },
            },
    {
        proof {
            use_type_invariant(&*self);
        }
        match map_get_mut(&mut self.map, key) {
            Some(Datum::Integer(number)) => Ok(number),
            Some(_) => Err(ContextAccessError::TypeMismatch),
            None => Err(ContextAccessError::KeyNotFound),
        }
    }

    /// The flag under `key`.
    pub fn get_flag(&self, key: &str) -> (found: Result<&bool, ContextAccessError>)
        ensures
            match found {
                Ok(flag) => refusal(self@, key@, Kind::Flag) is None && self@[key@] == DatumView::Flag(*flag),
                Err(reason) => refusal(self@, key@, Kind::Flag) == Some(reason),
            },
    {
        proof {
            use_type_invariant(self);
        }
        match map_get(&self.map, key) {
            Some(Datum::Flag(flag)) => Ok(flag),
            Some(_) => Err(ContextAccessError::TypeMismatch),
            None => Err(ContextAccessError::KeyNotFound),
        }
    }

    /// The flag under `key`, to be changed in place.
    pub fn get_flag_mut(&mut self, key: &str) -> (found: Result<&mut bool, ContextAccessError>)
        ensures
            match found {
                Ok(flag) => {
                    &&& refusal(old(self)@, key@, Kind::Flag) is None
                    &&& old(self)@[key@] == DatumView::Flag(*flag)
                    &&& final(self)@ == old(self)@.insert(key@, DatumView::Flag(*final(flag)))
                },
                Err(reason) => {
                    &&& refusal(old(self)@, key@, Kind::Flag) == Some(reason)
                    &&& final(self)@ == old(self)@
                },
            },
    {
        proof {
            use_type_invariant(&*self);
        }
        match map_get_mut(&mut self.map, key) {
            Some(Datum::Flag(flag)) => Ok(flag),
            Some(_) => Err(ContextAccessError::TypeMismatch),
            None => Err(ContextAccessError::KeyNotFound),
        }
    }
}

} // verus!
