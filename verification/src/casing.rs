//! Case-convention transformation of field names for display.
//!
//! The transformations themselves come from the `heck` crate; each result is
//! a pure function of the input characters, named by an uninterpreted
//! function so that contracts can speak about it exactly.

use vstd::prelude::*;

use heck::ToKebabCase;
use heck::ToLowerCamelCase;
use heck::ToPascalCase;
use heck::ToShoutyKebabCase;
use heck::ToShoutySnakeCase;
use heck::ToSnakeCase;

use crate::model::CaseStyle;

verus! {

pub uninterp spec fn snake_of(s: Seq<char>) -> Seq<char>;

pub uninterp spec fn lower_camel_of(s: Seq<char>) -> Seq<char>;

pub uninterp spec fn pascal_of(s: Seq<char>) -> Seq<char>;

pub uninterp spec fn kebab_of(s: Seq<char>) -> Seq<char>;

pub uninterp spec fn shouty_snake_of(s: Seq<char>) -> Seq<char>;

pub uninterp spec fn shouty_kebab_of(s: Seq<char>) -> Seq<char>;

/// Relies on heck's `str::to_snake_case`: the result depends on the input
/// characters alone.
#[verifier::external_body]
fn to_snake(s: &str) -> (r: String)
    ensures
        r@ == snake_of(s@),
{
    s.to_snake_case()
}

/// Relies on heck's `str::to_lower_camel_case`: the result depends on the
/// input characters alone.
#[verifier::external_body]
fn to_lower_camel(s: &str) -> (r: String)
    ensures
        r@ == lower_camel_of(s@),
{
    s.to_lower_camel_case()
}

/// Relies on heck's `str::to_pascal_case`: the result depends on the input
/// characters alone.
#[verifier::external_body]
fn to_pascal(s: &str) -> (r: String)
    ensures
        r@ == pascal_of(s@),
{
    s.to_pascal_case()
}

/// Relies on heck's `str::to_kebab_case`: the result depends on the input
/// characters alone.
#[verifier::external_body]
fn to_kebab(s: &str) -> (r: String)
    ensures
        r@ == kebab_of(s@),
{
    s.to_kebab_case()
}

/// Relies on heck's `str::to_shouty_snake_case`: the result depends on the
/// input characters alone.
#[verifier::external_body]
fn to_shouty_snake(s: &str) -> (r: String)
    ensures
        r@ == shouty_snake_of(s@),
{
    s.to_shouty_snake_case()
}

/// Relies on heck's `str::to_shouty_kebab_case`: the result depends on the
/// input characters alone.
#[verifier::external_body]
fn to_shouty_kebab(s: &str) -> (r: String)
    ensures
        r@ == shouty_kebab_of(s@),
{
    s.to_shouty_kebab_case()
}

/// A field name as displayed: transformed by the declared case convention,
/// or kept as written when no convention was declared.
pub open spec fn spec_transformed(rename_all: Option<CaseStyle>, name: Seq<char>) -> Seq<char> {
    match rename_all {
        Some(CaseStyle::Snake) => snake_of(name),
        Some(CaseStyle::Camel) => lower_camel_of(name),
        Some(CaseStyle::Pascal) => pascal_of(name),
        Some(CaseStyle::Kebab) => kebab_of(name),
        Some(CaseStyle::ScreamingSnake) => shouty_snake_of(name),
        Some(CaseStyle::ScreamingKebab) => shouty_kebab_of(name),
        None => name,
    }
}

/// Applies the declared case convention to a field name.
pub fn apply_field_name_transformation(field_name: &str, rename_all: &Option<CaseStyle>) -> (r:
    String)
    ensures
        r@ == spec_transformed(*rename_all, field_name@),
{
    match rename_all {
        Some(CaseStyle::Snake) => to_snake(field_name),
        Some(CaseStyle::Camel) => to_lower_camel(field_name),
        Some(CaseStyle::Pascal) => to_pascal(field_name),
        Some(CaseStyle::Kebab) => to_kebab(field_name),
        Some(CaseStyle::ScreamingKebab) => to_shouty_kebab(field_name),
        Some(CaseStyle::ScreamingSnake) => to_shouty_snake(field_name),
        None => field_name.to_owned(),
    }
}

} // verus!
