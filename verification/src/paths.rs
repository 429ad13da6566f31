//! Path items: the operations available on a single path.

use vstd::prelude::*;
use crate::operation::Operation;
use crate::parameter::Parameter;
use crate::reference::ReferenceOr;
use crate::server::Server;
use crate::strmap::StringMap;
use crate::value::Value;

verus! {

/// A set of requests a provider may initiate, keyed by a runtime expression
/// that identifies the callback URL.
pub type Callback = StringMap<PathItem>;

/// The operations available on a single path.  A path item may be empty:
/// the path is still exposed without operations.
#[derive(Debug, PartialEq)]
pub struct PathItem {
    /// An optional summary, intended to apply to all operations here.
    pub summary: Option<String>,
    /// An optional description, intended to apply to all operations here.
    pub description: Option<String>,
    pub get: Option<Operation>,
    pub put: Option<Operation>,
    pub post: Option<Operation>,
    pub delete: Option<Operation>,
    pub options: Option<Operation>,
    pub head: Option<Operation>,
    pub patch: Option<Operation>,
    pub trace: Option<Operation>,
    /// An alternative server list to service all operations on this path.
    pub servers: Vec<Server>,
    /// Parameters applicable to all operations on this path.
    pub parameters: Vec<ReferenceOr<Parameter>>,
    /// Inline extensions to this object.
    pub extensions: StringMap<Value>,
}

/// The method slots of a path item, in the fixed method order, with the
/// method names that label them.
pub open spec fn method_slots(p: PathItem) -> Seq<(Seq<char>, Option<Operation>)> {
    seq![
        ("get"@, p.get),
        ("put"@, p.put),
        ("post"@, p.post),
        ("delete"@, p.delete),
        ("options"@, p.options),
        ("head"@, p.head),
        ("patch"@, p.patch),
        ("trace"@, p.trace),
    ]
}

/// The operations present on a path item, in the fixed method order, each
/// labelled with its method name.
pub open spec fn present_ops(slots: Seq<(Seq<char>, Option<Operation>)>) -> Seq<
    (Seq<char>, Operation),
>
    decreases slots,
{
    if slots.len() == 0 {
        Seq::empty()
    } else {
        let rest = present_ops(slots.drop_last());
        match slots.last().1 {
            Some(op) => rest.push((slots.last().0, op)),
            None => rest,
        }
    }
}

impl PathItem {
    /// The operations present on this path item, in the fixed method order.
    pub open spec fn spec_ops(self) -> Seq<(Seq<char>, Operation)> {
        present_ops(method_slots(self))
    }

    /// A path item with every slot empty.
    pub fn new() -> (r: Self)
        ensures
            r.summary is None,
            r.description is None,
            r.get is None,
            r.put is None,
            r.post is None,
            r.delete is None,
            r.options is None,
            r.head is None,
            r.patch is None,
            r.trace is None,
            r.servers@.len() == 0,
            r.parameters@.len() == 0,
            r.extensions.spec_len() == 0,
    {
        PathItem {
            summary: None,
            description: None,
            get: None,
            put: None,
            post: None,
            delete: None,
            options: None,
            head: None,
            patch: None,
            trace: None,
            servers: Vec::new(),
            parameters: Vec::new(),
            extensions: StringMap::new(),
        }
    }

    /// The operations present on this path item, each with its method name,
    /// in the fixed method order.
    #[verifier::rlimit(100)]
    pub fn iter(&self) -> (r: Vec<(&'static str, &Operation)>)
        ensures
            r@.len() == self.spec_ops().len(),
            forall|i: int|
                0 <= i < r@.len() ==> r@[i].0@ == self.spec_ops()[i].0 && *r@[i].1
                    == self.spec_ops()[i].1,
    {
        let mut out: Vec<(&'static str, &Operation)> = Vec::new();
        proof {
            reveal_strlit("get");
            reveal_strlit("put");
            reveal_strlit("post");
            reveal_strlit("delete");
            reveal_strlit("options");
            reveal_strlit("head");
            reveal_strlit("patch");
            reveal_strlit("trace");
        }
        if let Some(op) = &self.get {
            out.push(("get", op));
        }
        if let Some(op) = &self.put {
            out.push(("put", op));
        }
        if let Some(op) = &self.post {
            out.push(("post", op));
        }
        if let Some(op) = &self.delete {
            out.push(("delete", op));
        }
        if let Some(op) = &self.options {
            out.push(("options", op));
        }
        if let Some(op) = &self.head {
            out.push(("head", op));
        }
        if let Some(op) = &self.patch {
            out.push(("patch", op));
        }
        if let Some(op) = &self.trace {
            out.push(("trace", op));
        }
        proof {
            reveal_with_fuel(present_ops, 9);
        }
        out
    }
}

/// The relative endpoint paths and their operations.
#[derive(Debug, PartialEq)]
pub struct Paths {
    /// A map of path items or references to them.
    pub paths: StringMap<ReferenceOr<PathItem>>,
    /// Inline extensions to this object.
    pub extensions: StringMap<Value>,
}

impl Paths {
    /// The path map with no entries.
    pub fn new() -> (r: Self)
        ensures
            r.paths.spec_len() == 0,
            r.paths.wf(),
            r.extensions.spec_len() == 0,
            forall|k: Seq<char>| r.paths.spec_get(k) is None,
    {
        Paths { paths: StringMap::new(), extensions: StringMap::new() }
    }
}

} // verus!
