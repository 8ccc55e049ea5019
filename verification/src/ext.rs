//! Trusted boundary: declarations of the outside types that a plan carries
//! (object identifiers, action parameters, dynamic values, identifiers) and
//! thin wrappers around the few outside calls the library relies on.

use vstd::prelude::*;
use eva_common::OID;
use eva_common::value::Value;
use eva_common::actions::Params;
use uuid::Uuid;

verus! {

#[verifier::external_type_specification]
#[verifier::external_body]
pub struct ExOid(OID);

#[verifier::external_type_specification]
#[verifier::external_body]
pub struct ExValue(Value);

#[verifier::external_type_specification]
#[verifier::external_body]
pub struct ExParams(Params);

#[verifier::external_type_specification]
#[verifier::external_body]
pub struct ExUuid(Uuid);

/// The hyphenated text form of an identifier, as `uuid::Uuid`'s `Display`
/// renders it; a function of the identifier alone.
pub uninterp spec fn uuid_chars_of(u: Uuid) -> Seq<char>;

/// The identifier that `uuid::Uuid::try_parse` reads from a string, or
/// `None` where the string is not a valid identifier; a function of the
/// characters alone.
pub uninterp spec fn uuid_of_chars(s: Seq<char>) -> Option<Uuid>;

/// The unit-action parameter payload that `eva_common::actions::Params::new_unit`
/// builds around a value; a function of the value alone.
pub uninterp spec fn unit_params_of(v: Value) -> Params;

/// Relies on uuid::Uuid::new_v4: a freshly drawn random identifier.
/// Nothing is promised of the value.
#[verifier::external_body]
pub(crate) fn uuid_generate() -> Uuid {
    Uuid::new_v4()
}

/// Relies on uuid::Uuid's Display impl, which renders the sixteen bytes in
/// the hyphenated lowercase hex form, and on uuid::Uuid::try_parse, which
/// accepts that form and reads the same bytes back.
#[verifier::external_body]
pub(crate) fn uuid_format(u: &Uuid) -> (r: String)
    ensures
        r@ == uuid_chars_of(*u),
        uuid_of_chars(r@) == Some(*u),
{
    u.to_string()
}

/// Relies on uuid::Uuid::try_parse: whether a string parses, and to which
/// identifier, depends on the characters alone.
#[verifier::external_body]
pub(crate) fn uuid_parse(s: &str) -> (r: Option<Uuid>)
    ensures
        r == uuid_of_chars(s@),
{
    Uuid::try_parse(s).ok()
}

/// Relies on the derived Clone of eva_common::OID, which copies the fields.
#[verifier::external_body]
pub(crate) fn oid_clone(o: &OID) -> (r: OID)
    ensures
        r == *o,
{
    o.clone()
}

/// Relies on the derived Clone of eva_common::actions::Params, which copies
/// the carried payload.
#[verifier::external_body]
pub(crate) fn params_clone(p: &Params) -> (r: Params)
    ensures
        r == *p,
{
    p.clone()
}

/// Relies on eva_common::actions::Params::new_unit, which wraps a value into
/// unit-action parameters.
#[verifier::external_body]
pub(crate) fn params_new_unit(value: Value) -> (r: Params)
    ensures
        r == unit_params_of(value),
{
    Params::new_unit(value)
}

} // verus!
