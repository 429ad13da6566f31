//! Reference resolution: dereferencing `#/components/...` pointers against
//! one document's component tables.
//!
//! Schema resolution is the only kind allowed to chain: a schema table
//! entry that is itself a reference is followed, as is the schema found
//! under a property path.  Parameter, response and request-body resolution
//! never chain: a table entry that is itself a reference fails as circular.
//! Schema chains are followed under a depth budget of one step per named
//! schema; a chain that runs longer revisits the tables and is reported
//! circular.

use vstd::prelude::*;
use crate::error::ResolveError;
use crate::openapi::OpenAPI;
use crate::parameter::Parameter;
use crate::reference::{
    is_component_ref, is_schema_property_ref, lemma_component_ref_unique,
    lemma_property_ref_unique, lemma_ref_forms_disjoint, parse_component_ref, parse_schema_ref,
    ReferenceOr,
};
use crate::request_body::RequestBody;
use crate::responses::Response;
use crate::schema::{Schema, SchemaKind, Type};
use crate::strmap::{map_lookup, Entry, StringMap};

verus! {

/// What resolving a pointer yields: the target, or the reason it has none.
pub enum Resolution<T> {
    /// The pointer reaches this value.
    Found(T),
    /// The pointer does not follow the grammar for the requested group.
    Invalid,
    /// The named entry is absent from the relevant table.
    NotFound,
    /// A table entry was a reference where chaining is not allowed, or a
    /// schema chain ran past the depth the table could justify.
    Circular,
}

/// The name a pointer of the given group points at, where it has one.
pub open spec fn spec_parse_group(s: Seq<char>, group: Seq<char>) -> Option<Seq<char>> {
    if exists|n: Seq<char>| is_component_ref(s, group, n) {
        Some(choose|n: Seq<char>| is_component_ref(s, group, n))
    } else {
        None
    }
}

/// The schema name, and the property name where the pointer has the
/// property-path form.
pub open spec fn spec_parse_schema_ptr(s: Seq<char>) -> Option<(Seq<char>, Option<Seq<char>>)> {
    if exists|n: Seq<char>| is_component_ref(s, "schemas"@, n) {
        Some((choose|n: Seq<char>| is_component_ref(s, "schemas"@, n), None))
    } else if exists|n: Seq<char>, p: Seq<char>| is_schema_property_ref(s, n, p) {
        Some(
            {
                let (n, p) = choose|n: Seq<char>, p: Seq<char>| is_schema_property_ref(s, n, p);
                (n, Some(p))
            },
        )
    } else {
        None
    }
}

/// The schema table's binding for a name; an absent table binds nothing.
pub open spec fn schema_table_get(doc: OpenAPI, name: Seq<char>) -> Option<ReferenceOr<Schema>> {
    match doc.components {
        Some(c) => c.schemas.spec_get(name),
        None => None,
    }
}

/// How many named hops a schema chain may take: one per named schema, plus
/// the first.
pub open spec fn chase_budget(doc: OpenAPI) -> nat {
    match doc.components {
        Some(c) => if c.schemas.spec_len() < usize::MAX {
            c.schemas.spec_len() + 1
        } else {
            c.schemas.spec_len()
        },
        None => 1,
    }
}

/// The nesting depth of a schema's `allOf` spine, which bounds how far
/// property collection recurses into inline branches.
pub open spec fn schema_size(s: Schema) -> int
    decreases s, 1int via schema_size_decreases
{
    match s.schema_kind {
        SchemaKind::AllOf { all_of } => branches_size(all_of@) + 1,
        _ => 0,
    }
}

#[via_fn]
proof fn schema_size_decreases(s: Schema) {
    match s.schema_kind {
        SchemaKind::AllOf { all_of } => {
            assert(decreases_to!(s => s.schema_kind));
            assert(decreases_to!(s.schema_kind => s.schema_kind->AllOf_all_of));
            assert(s.schema_kind->AllOf_all_of == all_of);
            assert(decreases_to!(all_of => all_of@));
        },
        _ => (),
    }
}

/// The summed nesting depth of a branch list, one unit per branch.
pub open spec fn branches_size(bs: Seq<ReferenceOr<Schema>>) -> int
    decreases bs, 0int via branches_size_decreases
{
    if bs.len() == 0 {
        0
    } else {
        branches_size(bs.drop_last()) + (match bs.last() {
            ReferenceOr::Item(sb) => schema_size(sb) + 1,
            ReferenceOr::Reference { .. } => 1,
        })
    }
}

#[via_fn]
proof fn branches_size_decreases(bs: Seq<ReferenceOr<Schema>>) {
    if bs.len() > 0 {
        assert(decreases_to!(bs => bs.drop_last()));
        match bs.last() {
            ReferenceOr::Item(sb) => {
                assert(decreases_to!(bs => bs[bs.len() - 1]));
                assert(decreases_to!(bs.last() => bs.last()->Item_0));
                assert(bs.last()->Item_0 == sb);
            },
            _ => (),
        }
    }
}

/// Branch lists and schemas never have a negative depth.
pub proof fn lemma_sizes_nonneg(bs: Seq<ReferenceOr<Schema>>)
    ensures
        branches_size(bs) >= 0,
        forall|s: Schema| schema_size(s) >= 0,
{
    assert forall|s: Schema| schema_size(s) >= 0 by {
        lemma_schema_size_nonneg(s);
    }
    lemma_branches_size_nonneg(bs);
}

proof fn lemma_schema_size_nonneg(s: Schema)
    ensures
        schema_size(s) >= 0,
    decreases s, 1int,
{
    match s.schema_kind {
        SchemaKind::AllOf { all_of } => {
            assert(decreases_to!(s => s.schema_kind));
            assert(decreases_to!(s.schema_kind => s.schema_kind->AllOf_all_of));
            assert(decreases_to!(all_of => all_of@));
            lemma_branches_size_nonneg(all_of@);
        },
        _ => (),
    }
}

proof fn lemma_branches_size_nonneg(bs: Seq<ReferenceOr<Schema>>)
    ensures
        branches_size(bs) >= 0,
    decreases bs, 0int,
{
    if bs.len() > 0 {
        assert(decreases_to!(bs => bs.drop_last()));
        lemma_branches_size_nonneg(bs.drop_last());
        match bs.last() {
            ReferenceOr::Item(sb) => {
                assert(decreases_to!(bs => bs[bs.len() - 1]));
                assert(decreases_to!(bs.last() => bs.last()->Item_0));
                lemma_schema_size_nonneg(sb);
            },
            _ => (),
        }
    }
}

/// Resolution of a schema pointer: parse it, look the name up (chaining
/// through reference entries), and for the property-path form locate the
/// property among the target's own and `allOf`-concatenated properties,
/// then resolve that schema, again chaining if it is a reference.
pub open spec fn spec_resolve_schema_ptr(doc: OpenAPI, s: Seq<char>, fuel: nat) -> Resolution<
    Schema,
>
    decreases fuel, 2int, 0int,
{
    match spec_parse_schema_ptr(s) {
        None => Resolution::Invalid,
        Some((name, None)) => spec_chase_schema(doc, name, fuel),
        Some((name, Some(prop))) => match spec_chase_schema(doc, name, fuel) {
            Resolution::Found(sch) => match spec_props(doc, sch, fuel) {
                Resolution::Found(entries) => match map_lookup(entries, prop) {
                    None => Resolution::NotFound,
                    Some(ReferenceOr::Item(b)) => Resolution::Found(*b),
                    Some(ReferenceOr::Reference { reference }) => if fuel == 0 {
                        Resolution::Circular
                    } else {
                        spec_resolve_schema_ptr(doc, reference@, (fuel - 1) as nat)
                    },
                },
                Resolution::Invalid => Resolution::Invalid,
                Resolution::NotFound => Resolution::NotFound,
                Resolution::Circular => Resolution::Circular,
            },
            other => other,
        },
    }
}

/// Lookup of a schema name, following a reference entry under the fuel.
pub open spec fn spec_chase_schema(doc: OpenAPI, name: Seq<char>, fuel: nat) -> Resolution<Schema>
    decreases fuel, 0int, 0int,
{
    match schema_table_get(doc, name) {
        None => Resolution::NotFound,
        Some(ReferenceOr::Item(sch)) => Resolution::Found(sch),
        Some(ReferenceOr::Reference { reference }) => if fuel == 0 {
            Resolution::Circular
        } else {
            spec_resolve_schema_ptr(doc, reference@, (fuel - 1) as nat)
        },
    }
}

/// The property entries of a schema: an object's own properties, the
/// concatenation of every `allOf` branch's properties, or the catch-all's
/// properties; other kinds have none.
pub open spec fn spec_props(doc: OpenAPI, s: Schema, fuel: nat) -> Resolution<
    Seq<Entry<ReferenceOr<Box<Schema>>>>,
>
    decreases fuel, 1int, schema_size(s) via spec_props_decreases
{
    match s.schema_kind {
        SchemaKind::Type(t) => match t {
            Type::Object(ot) => Resolution::Found(ot.properties.entries@),
            _ => Resolution::Found(Seq::empty()),
        },
        SchemaKind::AllOf { all_of } => spec_props_branches(doc, all_of@, fuel),
        SchemaKind::Any(a) => Resolution::Found(a.properties.entries@),
        _ => Resolution::Found(Seq::empty()),
    }
}

#[via_fn]
proof fn spec_props_decreases(doc: OpenAPI, s: Schema, fuel: nat) {
    match s.schema_kind {
        SchemaKind::AllOf { all_of } => {
            lemma_sizes_nonneg(all_of@);
        },
        _ => (),
    }
}

/// The concatenation of the property entries of each branch, left to right;
/// a branch that is a reference is first resolved under the fuel.
pub open spec fn spec_props_branches(
    doc: OpenAPI,
    bs: Seq<ReferenceOr<Schema>>,
    fuel: nat,
) -> Resolution<Seq<Entry<ReferenceOr<Box<Schema>>>>>
    decreases fuel, 1int, branches_size(bs) via spec_props_branches_decreases
{
    if bs.len() == 0 {
        Resolution::Found(Seq::empty())
    } else {
        match spec_props_branches(doc, bs.drop_last(), fuel) {
            Resolution::Found(acc) => match bs.last() {
                ReferenceOr::Item(sb) => match spec_props(doc, sb, fuel) {
                    Resolution::Found(ps) => Resolution::Found(acc + ps),
                    other => other,
                },
                ReferenceOr::Reference { reference } => if fuel == 0 {
                    Resolution::Circular
                } else {
                    match spec_resolve_schema_ptr(doc, reference@, (fuel - 1) as nat) {
                        Resolution::Found(s2) => match spec_props(
                            doc,
                            s2,
                            (fuel - 1) as nat,
                        ) {
                            Resolution::Found(ps) => Resolution::Found(acc + ps),
                            other => other,
                        },
                        Resolution::Invalid => Resolution::Invalid,
                        Resolution::NotFound => Resolution::NotFound,
                        Resolution::Circular => Resolution::Circular,
                    }
                },
            },
            other => other,
        }
    }
}

#[via_fn]
proof fn spec_props_branches_decreases(doc: OpenAPI, bs: Seq<ReferenceOr<Schema>>, fuel: nat) {
    if bs.len() > 0 {
        lemma_sizes_nonneg(bs);
        lemma_sizes_nonneg(bs.drop_last());
        assert(branches_size(bs) == branches_size(bs.drop_last()) + (match bs.last() {
            ReferenceOr::Item(sb) => schema_size(sb) + 1,
            ReferenceOr::Reference { .. } => 1int,
        }));
    }
}

/// An inline branch's depth lies strictly below its list's depth.
proof fn lemma_branch_size_bound(bs: Seq<ReferenceOr<Schema>>, i: int)
    requires
        0 <= i < bs.len(),
    ensures
        bs[i] matches ReferenceOr::Item(sb) ==> schema_size(sb) < branches_size(bs),
    decreases bs.len(),
{
    lemma_sizes_nonneg(bs.drop_last());
    lemma_sizes_nonneg(bs);
    if i == bs.len() - 1 {
        assert(bs.last() == bs[i]);
    } else {
        lemma_branch_size_bound(bs.drop_last(), i);
        assert(bs.drop_last()[i] == bs[i]);
        assert(branches_size(bs) == branches_size(bs.drop_last()) + (match bs.last() {
            ReferenceOr::Item(sb) => schema_size(sb) + 1,
            ReferenceOr::Reference { .. } => 1int,
        }));
        assert(branches_size(bs) >= branches_size(bs.drop_last()) + 1);
    }
}

/// An error of a branch prefix is the error of the whole list.
proof fn lemma_branches_err_extends(
    doc: OpenAPI,
    bs: Seq<ReferenceOr<Schema>>,
    k: int,
    fuel: nat,
)
    requires
        0 <= k <= bs.len(),
        !(spec_props_branches(doc, bs.take(k), fuel) is Found),
    ensures
        spec_props_branches(doc, bs, fuel) == spec_props_branches(doc, bs.take(k), fuel),
    decreases bs.len() - k,
{
    if k == bs.len() {
        assert(bs.take(k) =~= bs);
    } else {
        assert(bs.take(k + 1).drop_last() =~= bs.take(k));
        lemma_branches_err_extends(doc, bs, k + 1, fuel);
    }
}

/// The parameter table's binding for a name; an absent table binds nothing.
pub open spec fn parameter_table_get(doc: OpenAPI, name: Seq<char>) -> Option<
    ReferenceOr<Parameter>,
> {
    match doc.components {
        Some(c) => c.parameters.spec_get(name),
        None => None,
    }
}

/// The response table's binding for a name; an absent table binds nothing.
pub open spec fn response_table_get(doc: OpenAPI, name: Seq<char>) -> Option<
    ReferenceOr<Response>,
> {
    match doc.components {
        Some(c) => c.responses.spec_get(name),
        None => None,
    }
}

/// The request-body table's binding for a name; an absent table binds
/// nothing.
pub open spec fn request_body_table_get(doc: OpenAPI, name: Seq<char>) -> Option<
    ReferenceOr<RequestBody>,
> {
    match doc.components {
        Some(c) => c.request_bodies.spec_get(name),
        None => None,
    }
}

/// Connects an executable parse result to the parsed name of the contract.
proof fn lemma_parse_group_some(s: Seq<char>, group: Seq<char>, name: Seq<char>)
    requires
        is_component_ref(s, group, name),
    ensures
        spec_parse_group(s, group) == Some(name),
{
    let n = choose|n: Seq<char>| is_component_ref(s, group, n);
    lemma_component_ref_unique(s, group, n, name);
}

/// Connects an executable schema-pointer parse to the contract's view.
proof fn lemma_parse_schema_some(s: Seq<char>, name: Seq<char>, prop: Option<Seq<char>>)
    requires
        match prop {
            None => is_component_ref(s, "schemas"@, name),
            Some(p) => is_schema_property_ref(s, name, p),
        },
    ensures
        spec_parse_schema_ptr(s) == Some((name, prop)),
{
    match prop {
        None => {
            let n = choose|n: Seq<char>| is_component_ref(s, "schemas"@, n);
            lemma_component_ref_unique(s, "schemas"@, n, name);
        },
        Some(p) => {
            assert forall|n: Seq<char>| !is_component_ref(s, "schemas"@, n) by {
                if is_component_ref(s, "schemas"@, n) {
                    lemma_ref_forms_disjoint(s, n, name, p);
                }
            }
            let (n2, p2) = choose|n2: Seq<char>, p2: Seq<char>| is_schema_property_ref(s, n2, p2);
            lemma_property_ref_unique(s, n2, p2, name, p);
        },
    }
}

/// Resolves a parameter pointer: `#/components/parameters/<name>` must name
/// a table entry that is itself no reference — parameter resolution never
/// chains.
pub fn resolve_parameter<'a>(doc: &'a OpenAPI, reference: &str) -> (r: Result<
    &'a Parameter,
    ResolveError,
>)
    ensures
        match r {
            Ok(p) => spec_parse_group(reference@, "parameters"@) matches Some(n)
                && parameter_table_get(*doc, n) == Some(ReferenceOr::Item(*p)),
            Err(e) => match spec_parse_group(reference@, "parameters"@) {
                None => e matches ResolveError::InvalidReference(t) && t@ == reference@,
                Some(n) => match parameter_table_get(*doc, n) {
                    None => e matches ResolveError::NotFound(t) && t@ == n,
                    Some(ReferenceOr::Reference { .. }) => e matches ResolveError::Circular(t)
                        && t@ == reference@,
                    Some(ReferenceOr::Item(_)) => false,
                },
            },
        },
{
    proof {
        reveal_strlit("parameters");
    }
    match parse_component_ref(reference, "parameters") {
        None => Err(ResolveError::InvalidReference(reference.to_owned())),
        Some(name) => {
            proof {
                lemma_parse_group_some(reference@, "parameters"@, name@);
            }
            let table = match &doc.components {
                Some(c) => c.parameters.get(name.as_str()),
                None => None,
            };
            match table {
                None => Err(ResolveError::NotFound(name)),
                Some(ReferenceOr::Reference { .. }) => Err(
                    ResolveError::Circular(reference.to_owned()),
                ),
                Some(ReferenceOr::Item(p)) => Ok(p),
            }
        },
    }
}

/// Resolves a response pointer: `#/components/responses/<name>` must name a
/// table entry that is itself no reference — response resolution never
/// chains.
pub fn resolve_response<'a>(doc: &'a OpenAPI, reference: &str) -> (r: Result<
    &'a Response,
    ResolveError,
>)
    ensures
        match r {
            Ok(p) => spec_parse_group(reference@, "responses"@) matches Some(n)
                && response_table_get(*doc, n) == Some(ReferenceOr::Item(*p)),
            Err(e) => match spec_parse_group(reference@, "responses"@) {
                None => e matches ResolveError::InvalidReference(t) && t@ == reference@,
                Some(n) => match response_table_get(*doc, n) {
                    None => e matches ResolveError::NotFound(t) && t@ == n,
                    Some(ReferenceOr::Reference { .. }) => e matches ResolveError::Circular(t)
                        && t@ == reference@,
                    Some(ReferenceOr::Item(_)) => false,
                },
            },
        },
{
    proof {
        reveal_strlit("responses");
    }
    match parse_component_ref(reference, "responses") {
        None => Err(ResolveError::InvalidReference(reference.to_owned())),
        Some(name) => {
            proof {
                lemma_parse_group_some(reference@, "responses"@, name@);
            }
            let table = match &doc.components {
                Some(c) => c.responses.get(name.as_str()),
                None => None,
            };
            match table {
                None => Err(ResolveError::NotFound(name)),
                Some(ReferenceOr::Reference { .. }) => Err(
                    ResolveError::Circular(reference.to_owned()),
                ),
                Some(ReferenceOr::Item(p)) => Ok(p),
            }
        },
    }
}

/// Resolves a request-body pointer: `#/components/requestBodies/<name>`
/// must name a table entry that is itself no reference — request-body
/// resolution never chains.
pub fn resolve_request_body<'a>(doc: &'a OpenAPI, reference: &str) -> (r: Result<
    &'a RequestBody,
    ResolveError,
>)
    ensures
        match r {
            Ok(p) => spec_parse_group(reference@, "requestBodies"@) matches Some(n)
                && request_body_table_get(*doc, n) == Some(ReferenceOr::Item(*p)),
            Err(e) => match spec_parse_group(reference@, "requestBodies"@) {
                None => e matches ResolveError::InvalidReference(t) && t@ == reference@,
                Some(n) => match request_body_table_get(*doc, n) {
                    None => e matches ResolveError::NotFound(t) && t@ == n,
                    Some(ReferenceOr::Reference { .. }) => e matches ResolveError::Circular(t)
                        && t@ == reference@,
                    Some(ReferenceOr::Item(_)) => false,
                },
            },
        },
{
    proof {
        reveal_strlit("requestBodies");
    }
    match parse_component_ref(reference, "requestBodies") {
        None => Err(ResolveError::InvalidReference(reference.to_owned())),
        Some(name) => {
            proof {
                lemma_parse_group_some(reference@, "requestBodies"@, name@);
            }
            let table = match &doc.components {
                Some(c) => c.request_bodies.get(name.as_str()),
                None => None,
            };
            match table {
                None => Err(ResolveError::NotFound(name)),
                Some(ReferenceOr::Reference { .. }) => Err(
                    ResolveError::Circular(reference.to_owned()),
                ),
                Some(ReferenceOr::Item(p)) => Ok(p),
            }
        },
    }
}

/// Whether an executable resolution matches the specified outcome, with the
/// found schema handed out by reference.
pub open spec fn matches_resolution<'a>(
    r: Result<&'a Schema, ResolveError>,
    outcome: Resolution<Schema>,
) -> bool {
    match outcome {
        Resolution::Found(s) => r matches Ok(rs) && *rs == s,
        Resolution::Invalid => r matches Err(e) && e is InvalidReference,
        Resolution::NotFound => r matches Err(e) && e is NotFound,
        Resolution::Circular => r matches Err(e) && e is Circular,
    }
}

/// Resolves a schema pointer against the document's tables, chaining
/// through reference entries and property paths under the document's chase
/// budget.
pub fn resolve_schema<'a>(doc: &'a OpenAPI, reference: &str) -> (r: Result<
    &'a Schema,
    ResolveError,
>)
    ensures
        matches_resolution(r, spec_resolve_schema_ptr(*doc, reference@, chase_budget(*doc))),
{
    let budget = match &doc.components {
        Some(c) => {
            let n = c.schemas.len();
            if n < usize::MAX {
                n + 1
            } else {
                n
            }
        },
        None => 1,
    };
    resolve_schema_ptr(doc, reference, budget)
}

/// One step of schema-pointer resolution under the given fuel.
fn resolve_schema_ptr<'a>(doc: &'a OpenAPI, s: &str, fuel: usize) -> (r: Result<
    &'a Schema,
    ResolveError,
>)
    ensures
        matches_resolution(r, spec_resolve_schema_ptr(*doc, s@, fuel as nat)),
    decreases fuel, 2int, 0int,
{
    match parse_schema_ref(s) {
        None => Err(ResolveError::InvalidReference(s.to_owned())),
        Some((name, None)) => {
            proof {
                lemma_parse_schema_some(s@, name@, None);
            }
            chase_schema(doc, name.as_str(), fuel)
        },
        Some((name, Some(prop))) => {
            proof {
                lemma_parse_schema_some(s@, name@, Some(prop@));
            }
            let sch = match chase_schema(doc, name.as_str(), fuel) {
                Ok(sch) => sch,
                Err(e) => {
                    return Err(e);
                },
            };
            let entries = match collect_props(doc, sch, fuel) {
                Ok(entries) => entries,
                Err(e) => {
                    return Err(e);
                },
            };
            let ghost spec_entries = (match spec_props(*doc, *sch, fuel as nat) {
                Resolution::Found(es) => es,
                _ => Seq::empty(),
            });
            let mut i: usize = 0;
            while i < entries.len()
                invariant
                    i <= entries@.len(),
                    entries@.len() == spec_entries.len(),
                    spec_parse_schema_ptr(s@) == Some((name@, Some(prop@))),
                    spec_chase_schema(*doc, name@, fuel as nat) == Resolution::<Schema>::Found(
                        *sch,
                    ),
                    spec_props(*doc, *sch, fuel as nat)
                        == Resolution::<Seq<Entry<ReferenceOr<Box<Schema>>>>>::Found(spec_entries),
                    forall|j: int|
                        0 <= j < entries@.len() ==> entries@[j].0@ == spec_entries[j].key@
                            && *entries@[j].1 == spec_entries[j].value,
                    map_lookup(spec_entries, prop@) == crate::strmap::map_lookup_from(
                        spec_entries,
                        prop@,
                        i as int,
                    ),
                decreases entries@.len() - i,
            {
                if crate::value::str_eq(entries[i].0.as_str(), prop.as_str()) {
                    proof {
                        assert(spec_entries[i as int].key@ == prop@);
                        assert(crate::strmap::map_lookup_from(spec_entries, prop@, i as int)
                            == Some(spec_entries[i as int].value));
                    }
                    match entries[i].1 {
                        ReferenceOr::Item(b) => {
                            return Ok(&**b);
                        },
                        ReferenceOr::Reference { reference } => {
                            if fuel == 0 {
                                return Err(ResolveError::Circular(s.to_owned()));
                            }
                            return resolve_schema_ptr(doc, reference.as_str(), fuel - 1);
                        },
                    }
                }
                i += 1;
            }
            Err(ResolveError::NotFound(prop))
        },
    }
}

/// Looks a schema name up, following a reference entry under the fuel.
fn chase_schema<'a>(doc: &'a OpenAPI, name: &str, fuel: usize) -> (r: Result<
    &'a Schema,
    ResolveError,
>)
    ensures
        matches_resolution(r, spec_chase_schema(*doc, name@, fuel as nat)),
    decreases fuel, 0int, 0int,
{
    let table = match &doc.components {
        Some(c) => c.schemas.get(name),
        None => None,
    };
    match table {
        None => Err(ResolveError::NotFound(name.to_owned())),
        Some(ReferenceOr::Item(sch)) => Ok(sch),
        Some(ReferenceOr::Reference { reference }) => {
            if fuel == 0 {
                Err(ResolveError::Circular(name.to_owned()))
            } else {
                resolve_schema_ptr(doc, reference.as_str(), fuel - 1)
            }
        },
    }
}

/// The property entries of a schema, as borrowed name and schema pairs.
fn collect_props<'a>(doc: &'a OpenAPI, sch: &'a Schema, fuel: usize) -> (r: Result<
    Vec<(&'a String, &'a ReferenceOr<Box<Schema>>)>,
    ResolveError,
>)
    ensures
        match spec_props(*doc, *sch, fuel as nat) {
            Resolution::Found(es) => r matches Ok(v) && v@.len() == es.len() && forall|j: int|
                0 <= j < es.len() ==> v@[j].0@ == es[j].key@ && *v@[j].1 == es[j].value,
            Resolution::Invalid => r matches Err(e) && e is InvalidReference,
            Resolution::NotFound => r matches Err(e) && e is NotFound,
            Resolution::Circular => r matches Err(e) && e is Circular,
        },
    decreases fuel, 1int, schema_size(*sch),
{
    proof {
        lemma_sizes_nonneg(Seq::empty());
    }
    match &sch.schema_kind {
        SchemaKind::Type(Type::Object(ot)) => {
            let mut out: Vec<(&'a String, &'a ReferenceOr<Box<Schema>>)> = Vec::new();
            let mut i: usize = 0;
            while i < ot.properties.entries.len()
                invariant
                    i <= ot.properties.entries@.len(),
                    out@.len() == i,
                    forall|j: int|
                        0 <= j < i ==> out@[j].0@ == ot.properties.entries@[j].key@ && *out@[j].1
                            == ot.properties.entries@[j].value,
                decreases ot.properties.entries@.len() - i,
            {
                out.push((&ot.properties.entries[i].key, &ot.properties.entries[i].value));
                i += 1;
            }
            Ok(out)
        },
        SchemaKind::Any(a) => {
            let mut out: Vec<(&'a String, &'a ReferenceOr<Box<Schema>>)> = Vec::new();
            let mut i: usize = 0;
            while i < a.properties.entries.len()
                invariant
                    i <= a.properties.entries@.len(),
                    out@.len() == i,
                    forall|j: int|
                        0 <= j < i ==> out@[j].0@ == a.properties.entries@[j].key@ && *out@[j].1
                            == a.properties.entries@[j].value,
                decreases a.properties.entries@.len() - i,
            {
                out.push((&a.properties.entries[i].key, &a.properties.entries[i].value));
                i += 1;
            }
            Ok(out)
        },
        SchemaKind::AllOf { all_of } => {
            proof {
                assert(decreases_to!(*sch => sch.schema_kind));
                assert(decreases_to!(sch.schema_kind => sch.schema_kind->AllOf_all_of));
                assert(decreases_to!(*all_of => all_of@));
                lemma_sizes_nonneg(all_of@);
            }
            collect_props_branches(doc, all_of, fuel)
        },
        _ => Ok(Vec::new()),
    }
}

/// The concatenated property entries of a branch list, left to right.
fn collect_props_branches<'a>(
    doc: &'a OpenAPI,
    bs: &'a Vec<ReferenceOr<Schema>>,
    fuel: usize,
) -> (r: Result<Vec<(&'a String, &'a ReferenceOr<Box<Schema>>)>, ResolveError>)
    ensures
        match spec_props_branches(*doc, bs@, fuel as nat) {
            Resolution::Found(es) => r matches Ok(v) && v@.len() == es.len() && forall|j: int|
                0 <= j < es.len() ==> v@[j].0@ == es[j].key@ && *v@[j].1 == es[j].value,
            Resolution::Invalid => r matches Err(e) && e is InvalidReference,
            Resolution::NotFound => r matches Err(e) && e is NotFound,
            Resolution::Circular => r matches Err(e) && e is Circular,
        },
    decreases fuel, 1int, branches_size(bs@),
{
    let mut out: Vec<(&'a String, &'a ReferenceOr<Box<Schema>>)> = Vec::new();
    let mut i: usize = 0;
    while i < bs.len()
        invariant
            i <= bs@.len(),
            spec_props_branches(*doc, bs@.take(i as int), fuel as nat) matches Resolution::Found(
                es,
            ) && out@.len() == es.len() && (forall|j: int|
                0 <= j < es.len() ==> out@[j].0@ == es[j].key@ && *out@[j].1 == es[j].value),
        decreases bs@.len() - i,
    {
        let ghost prefix = bs@.take(i as int);
        let ghost prefix1 = bs@.take(i as int + 1);
        proof {
            assert(prefix1.drop_last() =~= prefix);
            assert(prefix1.last() == bs@[i as int]);
        }
        let branch_entries = match &bs[i] {
            ReferenceOr::Item(sb) => {
                proof {
                    lemma_branch_size_bound(bs@, i as int);
                    lemma_sizes_nonneg(bs@);
                    assert(bs@[i as int] matches ReferenceOr::Item(sbv) && sbv == *sb);
                    assert(schema_size(*sb) < branches_size(bs@));
                    assert(schema_size(*sb) >= 0);
                }
                match collect_props(doc, sb, fuel) {
                    Ok(v) => v,
                    Err(e) => {
                        proof {
                            lemma_branches_err_extends(*doc, bs@, i as int + 1, fuel as nat);
                        }
                        return Err(e);
                    },
                }
            },
            ReferenceOr::Reference { reference } => {
                if fuel == 0 {
                    proof {
                        lemma_branches_err_extends(*doc, bs@, i as int + 1, fuel as nat);
                    }
                    return Err(ResolveError::Circular(reference.clone()));
                }
                let s2 = match resolve_schema_ptr(doc, reference.as_str(), fuel - 1) {
                    Ok(s2) => s2,
                    Err(e) => {
                        proof {
                            lemma_branches_err_extends(*doc, bs@, i as int + 1, fuel as nat);
                        }
                        return Err(e);
                    },
                };
                match collect_props(doc, s2, fuel - 1) {
                    Ok(v) => v,
                    Err(e) => {
                        proof {
                            lemma_branches_err_extends(*doc, bs@, i as int + 1, fuel as nat);
                        }
                        return Err(e);
                    },
                }
            },
        };
        let mut j: usize = 0;
        let ghost out_before = out@;
        while j < branch_entries.len()
            invariant
                j <= branch_entries@.len(),
                out@.len() == out_before.len() + j,
                forall|k: int| 0 <= k < out_before.len() ==> out@[k] == out_before[k],
                forall|k: int|
                    0 <= k < j ==> out@[out_before.len() + k] == branch_entries@[k],
            decreases branch_entries@.len() - j,
        {
            out.push((branch_entries[j].0, branch_entries[j].1));
            j += 1;
        }
        proof {
            assert(spec_props_branches(*doc, prefix1, fuel as nat) matches Resolution::Found(es1)
                && out@.len() == es1.len() && (forall|k: int|
                0 <= k < es1.len() ==> out@[k].0@ == es1[k].key@ && *out@[k].1 == es1[k].value));
        }
        i += 1;
    }
    proof {
        assert(bs@.take(bs@.len() as int) =~= bs@);
    }
    Ok(out)
}

} // verus!
