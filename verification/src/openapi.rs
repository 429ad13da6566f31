//! The root document object and its accessors.

use vstd::prelude::*;
use crate::components::Components;
use crate::info::Info;
use crate::operation::Operation;
use crate::paths::{PathItem, Paths};
use crate::reference::ReferenceOr;
use crate::schema::{ExternalDocumentation, Schema};
use crate::server::Server;
use crate::strmap::{Entry, StringMap};
use crate::tag::Tag;
use crate::value::Value;

verus! {

/// One alternative set of required security schemes: scheme names mapped to
/// the scope names the request needs.
pub type SecurityRequirement = StringMap<Vec<String>>;

/// The root object of an API description document.
#[derive(Debug, PartialEq)]
pub struct OpenAPI {
    /// The format-version tag of the document.
    pub openapi: String,
    /// Metadata about the API.
    pub info: Info,
    /// The servers that provide the API.
    pub servers: Vec<Server>,
    /// The available paths and operations.
    pub paths: Paths,
    /// The document's named tables of reusable objects.
    pub components: Option<Components>,
    /// Which security mechanisms can be used across the API.
    pub security: Option<Vec<SecurityRequirement>>,
    /// Tags used by the document, each name unique.
    pub tags: Vec<Tag>,
    /// Additional external documentation.
    pub external_docs: Option<ExternalDocumentation>,
    /// Inline extensions to this object.
    pub extensions: StringMap<Value>,
}

/// The `(path, method, operation)` triples of the path entries, in path
/// order then fixed method order; path entries that are references are
/// skipped.
pub open spec fn ops_of_entries(es: Seq<Entry<ReferenceOr<PathItem>>>) -> Seq<
    (Seq<char>, Seq<char>, Operation),
>
    decreases es,
{
    if es.len() == 0 {
        Seq::empty()
    } else {
        ops_of_entries(es.drop_last()) + (match es.last().value {
            ReferenceOr::Item(pi) => tag_path(es.last().key@, pi.spec_ops()),
            ReferenceOr::Reference { .. } => Seq::empty(),
        })
    }
}

/// The operations of one path item, each labelled with the path.
pub open spec fn tag_path(path: Seq<char>, ops: Seq<(Seq<char>, Operation)>) -> Seq<
    (Seq<char>, Seq<char>, Operation),
> {
    Seq::new(ops.len(), |i: int| (path, ops[i].0, ops[i].1))
}

/// The first listed operation carrying the given identifier.
pub open spec fn find_op(
    ops: Seq<(Seq<char>, Seq<char>, Operation)>,
    id: Seq<char>,
    i: int,
) -> Option<(Seq<char>, Seq<char>, Operation)>
    decreases ops.len() - i,
{
    if i < 0 || i >= ops.len() {
        None
    } else if ops[i].2.operation_id matches Some(s) && s@ == id {
        Some(ops[i])
    } else {
        find_op(ops, id, i + 1)
    }
}

impl OpenAPI {
    /// The triples this document's `operations` accessor hands out.
    pub open spec fn spec_operations(self) -> Seq<(Seq<char>, Seq<char>, Operation)> {
        ops_of_entries(self.paths.paths.entries@)
    }

    /// Every `(path, method, operation)` triple of this document, in path
    /// order then fixed method order.  Path entries that are references are
    /// skipped.
    pub fn operations(&self) -> (r: Vec<(&String, &'static str, &Operation)>)
        ensures
            r@.len() == self.spec_operations().len(),
            forall|i: int|
                0 <= i < r@.len() ==> {
                    &&& r@[i].0@ == self.spec_operations()[i].0
                    &&& r@[i].1@ == self.spec_operations()[i].1
                    &&& *r@[i].2 == self.spec_operations()[i].2
                },
    {
        let mut out: Vec<(&String, &'static str, &Operation)> = Vec::new();
        let entries = &self.paths.paths.entries;
        let mut i: usize = 0;
        while i < entries.len()
            invariant
                i <= entries@.len(),
                entries == self.paths.paths.entries,
                out@.len() == ops_of_entries(entries@.take(i as int)).len(),
                forall|j: int|
                    0 <= j < out@.len() ==> {
                        &&& out@[j].0@ == ops_of_entries(entries@.take(i as int))[j].0
                        &&& out@[j].1@ == ops_of_entries(entries@.take(i as int))[j].1
                        &&& *out@[j].2 == ops_of_entries(entries@.take(i as int))[j].2
                    },
            decreases entries@.len() - i,
        {
            let ghost prefix = entries@.take(i as int);
            let ghost prefix1 = entries@.take(i as int + 1);
            proof {
                assert(prefix1.drop_last() =~= prefix);
                assert(prefix1.last() == entries@[i as int]);
            }
            match &entries[i].value {
                ReferenceOr::Item(pi) => {
                    let ops = pi.iter();
                    let ghost tagged = tag_path(entries@[i as int].key@, pi.spec_ops());
                    let mut j: usize = 0;
                    while j < ops.len()
                        invariant
                            j <= ops@.len(),
                            ops@.len() == pi.spec_ops().len(),
                            forall|k: int|
                                0 <= k < ops@.len() ==> ops@[k].0@ == pi.spec_ops()[k].0
                                    && *ops@[k].1 == pi.spec_ops()[k].1,
                            tagged == tag_path(entries@[i as int].key@, pi.spec_ops()),
                            i < entries@.len(),
                            entries == self.paths.paths.entries,
                            out@.len() == ops_of_entries(entries@.take(i as int)).len() + j,
                            forall|k: int|
                                0 <= k < ops_of_entries(entries@.take(i as int)).len() ==> {
                                    &&& out@[k].0@ == ops_of_entries(entries@.take(i as int))[k].0
                                    &&& out@[k].1@ == ops_of_entries(entries@.take(i as int))[k].1
                                    &&& *out@[k].2 == ops_of_entries(entries@.take(i as int))[k].2
                                },
                            forall|k: int|
                                0 <= k < j ==> {
                                    &&& out@[ops_of_entries(entries@.take(i as int)).len() + k].0@
                                        == tagged[k].0
                                    &&& out@[ops_of_entries(entries@.take(i as int)).len() + k].1@
                                        == tagged[k].1
                                    &&& *out@[ops_of_entries(entries@.take(i as int)).len() + k].2
                                        == tagged[k].2
                                },
                        decreases ops@.len() - j,
                    {
                        out.push((&entries[i].key, ops[j].0, ops[j].1));
                        j += 1;
                    }
                },
                ReferenceOr::Reference { .. } => (),
            }
            proof {
                assert(ops_of_entries(prefix1) == ops_of_entries(prefix) + (match prefix1.last().value {
                    ReferenceOr::Item(pi) => tag_path(prefix1.last().key@, pi.spec_ops()),
                    ReferenceOr::Reference { .. } => Seq::<(Seq<char>, Seq<char>, Operation)>::empty(),
                }));
            }
            i += 1;
        }
        proof {
            assert(entries@.take(entries@.len() as int) =~= entries@);
        }
        out
    }

    /// The first operation carrying the given identifier, with its path and
    /// method.  Operations without an identifier never match: identifiers
    /// are optional in the model, so an absent one makes the operation
    /// unfindable here rather than an error.
    pub fn find_operation(&self, operation_id: &str) -> (r: Option<
        (&String, &'static str, &Operation),
    >)
        ensures
            match r {
                Some(t) => find_op(self.spec_operations(), operation_id@, 0) matches Some(f)
                    && t.0@ == f.0 && t.1@ == f.1 && *t.2 == f.2,
                None => find_op(self.spec_operations(), operation_id@, 0) is None,
            },
    {
        let ops = self.operations();
        let mut i: usize = 0;
        while i < ops.len()
            invariant
                i <= ops@.len(),
                ops@.len() == self.spec_operations().len(),
                forall|k: int|
                    0 <= k < ops@.len() ==> {
                        &&& ops@[k].0@ == self.spec_operations()[k].0
                        &&& ops@[k].1@ == self.spec_operations()[k].1
                        &&& *ops@[k].2 == self.spec_operations()[k].2
                    },
                find_op(self.spec_operations(), operation_id@, 0) == find_op(
                    self.spec_operations(),
                    operation_id@,
                    i as int,
                ),
            decreases ops@.len() - i,
        {
            let matched = match &ops[i].2.operation_id {
                Some(s) => crate::value::str_eq(s.as_str(), operation_id),
                None => false,
            };
            if matched {
                return Some(ops[i]);
            }
            i += 1;
        }
        None
    }

    /// The named schema of the component tables, where there is one.
    pub fn get_schema(&self, name: &str) -> (r: Option<&ReferenceOr<Schema>>)
        ensures
            match r {
                Some(s) => self.components matches Some(c) && c.schemas.spec_get(name@) == Some(
                    *s,
                ),
                None => match self.components {
                    Some(c) => c.schemas.spec_get(name@) is None,
                    None => true,
                },
            },
    {
        match &self.components {
            Some(c) => c.schemas.get(name),
            None => None,
        }
    }

    /// Binds a schema name in the component tables, creating the tables
    /// where the document had none; an existing binding has its value
    /// replaced in place, and is returned.
    pub fn insert_schema(&mut self, name: String, schema: ReferenceOr<Schema>) -> (old_v: Option<
        ReferenceOr<Schema>,
    >)
        requires
            old(self).components matches Some(c) ==> c.schemas.wf(),
        ensures
            final(self).components is Some,
            final(self).components matches Some(c) && {
                &&& c.schemas.wf()
                &&& c.schemas.spec_get(name@) == Some(schema)
                &&& match old(self).components {
                    Some(oc) => forall|k: Seq<char>|
                        k != name@ ==> c.schemas.spec_get(k) == oc.schemas.spec_get(k),
                    None => forall|k: Seq<char>| k != name@ ==> c.schemas.spec_get(k) is None,
                }
                &&& old_v == match old(self).components {
                    Some(oc) => oc.schemas.spec_get(name@),
                    None => None::<ReferenceOr<Schema>>,
                }
            },
            final(self).openapi == old(self).openapi,
            final(self).info == old(self).info,
            final(self).servers == old(self).servers,
            final(self).paths == old(self).paths,
            final(self).security == old(self).security,
            final(self).tags == old(self).tags,
            final(self).external_docs == old(self).external_docs,
            final(self).extensions == old(self).extensions,
    {
        if self.components.is_none() {
            self.components = Some(Components::new());
        }
        match &mut self.components {
            Some(c) => c.schemas.insert(name, schema),
            None => unreached(),
        }
    }
}

} // verus!
