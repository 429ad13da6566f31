//! Either a named pointer into a document's component tables, or an inline
//! value, together with the pointer grammar.

use vstd::prelude::*;
use vstd::string::StrSliceExecFns;
use vstd::string::StringExecFns;
use crate::util::{char_index_of, starts_with, str_starts_with, substring_string};
use crate::value::{GValue, Value};

verus! {

/// A named pointer into a component table, or an inline value.
#[derive(Debug, Clone, PartialEq)]
pub enum ReferenceOr<T> {
    Reference { reference: String },
    Item(T),
}

impl<T> ReferenceOr<T> {
    /// A pointer with the given text.
    pub fn ref_(r: &str) -> (result: Self)
        ensures
            result matches ReferenceOr::Reference { reference } && reference@ == r@,
    {
        ReferenceOr::Reference { reference: r.to_owned() }
    }

    /// An inline value, boxed.
    pub fn boxed_item(item: T) -> (r: ReferenceOr<Box<T>>)
        ensures
            r matches ReferenceOr::Item(b) && *b == item,
    {
        ReferenceOr::Item(Box::new(item))
    }

    /// The item inside, if this is an inline value; `None` for a pointer.
    pub fn into_item(self) -> (r: Option<T>)
        ensures
            r == match self {
                ReferenceOr::Reference { .. } => None::<T>,
                ReferenceOr::Item(i) => Some(i),
            },
    {
        match self {
            ReferenceOr::Reference { .. } => None,
            ReferenceOr::Item(i) => Some(i),
        }
    }

    /// A reference to the item inside, if this is an inline value.
    pub fn as_item(&self) -> (r: Option<&T>)
        ensures
            match r {
                Some(i) => self matches ReferenceOr::Item(item) && item == i,
                None => self is Reference,
            },
    {
        match self {
            ReferenceOr::Reference { .. } => None,
            ReferenceOr::Item(i) => Some(i),
        }
    }
}

impl<T> ReferenceOr<Box<T>> {
    /// The same pointer-or-item with the box removed.
    pub fn unbox(self) -> (r: ReferenceOr<T>)
        ensures
            r == match self {
                ReferenceOr::Reference { reference } => ReferenceOr::Reference::<T> { reference },
                ReferenceOr::Item(boxed) => ReferenceOr::Item(*boxed),
            },
    {
        match self {
            ReferenceOr::Reference { reference } => ReferenceOr::Reference { reference },
            ReferenceOr::Item(boxed) => ReferenceOr::Item(*boxed),
        }
    }
}

/// A value has reference shape exactly when it is an object whose only field
/// is the pointer field, holding a string.
pub open spec fn gv_is_reference(gv: GValue) -> bool {
    &&& gv is Object
    &&& gv->Object_0.len() == 1
    &&& gv->Object_0[0].name == "$ref"@
    &&& gv->Object_0[0].value is Text
}

/// The pointer text of a value of reference shape.
pub open spec fn gv_reference_text(gv: GValue) -> Seq<char> {
    gv->Object_0[0].value->Text_0
}

/// The pointer text, when the value is an object whose only field is the
/// pointer field; `None` otherwise.
pub fn as_reference(v: &Value) -> (r: Option<String>)
    ensures
        match r {
            Some(s) => gv_is_reference(v.gv()) && s@ == gv_reference_text(v.gv()),
            None => !gv_is_reference(v.gv()),
        },
{
    proof {
        match v {
            Value::Object(ms) => crate::value::lemma_gv_members(ms@),
            _ => (),
        }
    }
    match v {
        Value::Object(ms) => {
            if ms.len() != 1 {
                return None;
            }
            if !crate::value::str_eq(ms[0].name.as_str(), "$ref") {
                return None;
            }
            match &ms[0].value {
                Value::Text(s) => Some(s.clone()),
                _ => None,
            }
        },
        _ => None,
    }
}

/// True when no character of `x` is a slash.
pub open spec fn no_slash(x: Seq<char>) -> bool {
    forall|i: int| 0 <= i < x.len() ==> x[i] != '/'
}

/// `s` is a component pointer for `group` naming `name`:
/// `#/components/<group>/<name>`, with no slash in the name.
pub open spec fn is_component_ref(s: Seq<char>, group: Seq<char>, name: Seq<char>) -> bool {
    &&& s == "#/components/"@ + group + "/"@ + name
    &&& no_slash(name)
}

/// `s` is a property-level schema pointer naming `name` and `prop`:
/// `#/components/schemas/<name>/properties/<prop>`.
pub open spec fn is_schema_property_ref(s: Seq<char>, name: Seq<char>, prop: Seq<char>) -> bool {
    &&& s == "#/components/schemas/"@ + name + "/properties/"@ + prop
    &&& no_slash(name)
    &&& no_slash(prop)
}

/// Parses a component pointer for the given group, returning the name it
/// points at.  `None` exactly when no name makes `s` such a pointer.
pub fn parse_component_ref(s: &str, group: &str) -> (r: Option<String>)
    requires
        no_slash(group@),
    ensures
        match r {
            Some(name) => is_component_ref(s@, group@, name@),
            None => forall|n: Seq<char>| !is_component_ref(s@, group@, n),
        },
{
    let mut prefix = String::from_str("#/components/");
    prefix.append(group);
    prefix.append("/");
    proof {
        reveal_strlit("/");
        assert(prefix@ == "#/components/"@ + group@ + "/"@);
    }
    let plen = prefix.as_str().unicode_len();
    if !str_starts_with(s, prefix.as_str()) {
        proof {
            assert forall|n: Seq<char>| !is_component_ref(s@, group@, n) by {
                if is_component_ref(s@, group@, n) {
                    assert(s@.subrange(0, prefix@.len() as int) =~= prefix@);
                }
            }
        }
        return None;
    }
    let slen = s.unicode_len();
    match char_index_of(s, plen, '/') {
        Some(i) => {
            proof {
                assert forall|n: Seq<char>| !is_component_ref(s@, group@, n) by {
                    if is_component_ref(s@, group@, n) {
                        assert(s@[prefix@.len() + (i - prefix@.len())] == n[i - prefix@.len()]);
                    }
                }
            }
            None
        },
        None => {
            let name = substring_string(s, plen, slen);
            proof {
                assert(s@ =~= "#/components/"@ + group@ + "/"@ + name@);
            }
            Some(name)
        },
    }
}

/// Parses a schema pointer: either `#/components/schemas/<name>` or
/// `#/components/schemas/<name>/properties/<prop>`.  `None` exactly when the
/// string has neither form.
pub fn parse_schema_ref(s: &str) -> (r: Option<(String, Option<String>)>)
    ensures
        match r {
            Some((name, p)) => match p {
                Some(prop) => is_schema_property_ref(s@, name@, prop@),
                None => is_component_ref(s@, "schemas"@, name@),
            },
            None => (forall|n: Seq<char>| !is_component_ref(s@, "schemas"@, n)) && (forall|
                n: Seq<char>,
                q: Seq<char>,
            | !is_schema_property_ref(s@, n, q)),
        },
{
    proof {
        reveal_strlit("#/components/");
        reveal_strlit("schemas");
        reveal_strlit("#/components/schemas/");
        reveal_strlit("/");
        reveal_strlit("/properties/");
        assert("#/components/schemas/"@ =~= "#/components/"@ + "schemas"@ + "/"@);
    }
    let prefix = "#/components/schemas/";
    let plen = prefix.unicode_len();
    if !str_starts_with(s, prefix) {
        proof {
            assert forall|n: Seq<char>| !is_component_ref(s@, "schemas"@, n) by {
                if is_component_ref(s@, "schemas"@, n) {
                    assert(s@.subrange(0, prefix@.len() as int) =~= prefix@);
                }
            }
            assert forall|n: Seq<char>, q: Seq<char>| !is_schema_property_ref(s@, n, q) by {
                if is_schema_property_ref(s@, n, q) {
                    assert(s@.subrange(0, prefix@.len() as int) =~= prefix@);
                }
            }
        }
        return None;
    }
    let slen = s.unicode_len();
    match char_index_of(s, plen, '/') {
        None => {
            let name = substring_string(s, plen, slen);
            proof {
                assert(s@ =~= "#/components/"@ + "schemas"@ + "/"@ + name@);
            }
            Some((name, None))
        },
        Some(i) => {
            // A second slash: only the property form can fit, with the name
            // ending exactly at the first slash.
            let name = substring_string(s, plen, i);
            let mut middle = String::from_str("#/components/schemas/");
            middle.append(name.as_str());
            middle.append("/properties/");
            proof {
                assert(middle@ == "#/components/schemas/"@ + name@ + "/properties/"@);
            }
            let mlen = middle.as_str().unicode_len();
            if !str_starts_with(s, middle.as_str()) {
                proof {
                    lemma_no_schema_ref_with_slash(s@, i as int);
                    assert forall|n: Seq<char>, q: Seq<char>|
                        !is_schema_property_ref(s@, n, q) by {
                        if is_schema_property_ref(s@, n, q) {
                            lemma_property_ref_name(s@, n, q, i as int);
                            assert(s@.subrange(0, middle@.len() as int) =~= middle@);
                        }
                    }
                }
                return None;
            }
            match char_index_of(s, mlen, '/') {
                Some(j) => {
                    proof {
                        lemma_no_schema_ref_with_slash(s@, i as int);
                        assert forall|n: Seq<char>, q: Seq<char>|
                            !is_schema_property_ref(s@, n, q) by {
                            if is_schema_property_ref(s@, n, q) {
                                lemma_property_ref_name(s@, n, q, i as int);
                                assert(s@[middle@.len() + (j - middle@.len())] == q[j
                                    - middle@.len()]);
                            }
                        }
                    }
                    None
                },
                None => {
                    let prop = substring_string(s, mlen, slen);
                    proof {
                        lemma_no_schema_ref_with_slash(s@, i as int);
                        assert(s@ =~= "#/components/schemas/"@ + name@ + "/properties/"@ + prop@);
                    }
                    Some((name, Some(prop)))
                },
            }
        },
    }
}

/// A pointer names at most one entry: the name is the text after the
/// prefix.
pub proof fn lemma_component_ref_unique(s: Seq<char>, g: Seq<char>, n1: Seq<char>, n2: Seq<char>)
    requires
        is_component_ref(s, g, n1),
        is_component_ref(s, g, n2),
    ensures
        n1 == n2,
{
    let p = "#/components/"@ + g + "/"@;
    assert(n1.len() == s.len() - p.len());
    assert(n2.len() == s.len() - p.len());
    assert forall|i: int| 0 <= i < n1.len() implies n1[i] == n2[i] by {
        assert(s[p.len() + i] == n1[i]);
        assert(s[p.len() + i] == n2[i]);
    }
    assert(n1 =~= n2);
}

/// A property pointer names at most one schema and property pair.
pub proof fn lemma_property_ref_unique(
    s: Seq<char>,
    n1: Seq<char>,
    p1: Seq<char>,
    n2: Seq<char>,
    p2: Seq<char>,
)
    requires
        is_schema_property_ref(s, n1, p1),
        is_schema_property_ref(s, n2, p2),
    ensures
        n1 == n2,
        p1 == p2,
{
    reveal_strlit("#/components/schemas/");
    reveal_strlit("/properties/");
    let pre = "#/components/schemas/"@;
    let mid = "/properties/"@;
    if n1.len() < n2.len() {
        // The separator after the shorter name would stand inside the
        // longer name, which holds no slash.
        assert(s[pre.len() + n1.len() as int] == mid[0]);
        assert(s[pre.len() + n1.len() as int] == n2[n1.len() as int]);
        assert(mid[0] == '/');
        assert(false);
    }
    if n2.len() < n1.len() {
        assert(s[pre.len() + n2.len() as int] == mid[0]);
        assert(s[pre.len() + n2.len() as int] == n1[n2.len() as int]);
        assert(mid[0] == '/');
        assert(false);
    }
    assert forall|i: int| 0 <= i < n1.len() implies n1[i] == n2[i] by {
        assert(s[pre.len() + i] == n1[i]);
        assert(s[pre.len() + i] == n2[i]);
    }
    assert(n1 =~= n2);
    assert(s.len() == pre.len() + n1.len() + mid.len() + p1.len());
    assert(s.len() == pre.len() + n2.len() + mid.len() + p2.len());
    assert(p1.len() == p2.len());
    assert forall|i: int| 0 <= i < p1.len() implies p1[i] == p2[i] by {
        assert(s[pre.len() + n1.len() + mid.len() + i as int] == p1[i]);
        assert(s[pre.len() + n2.len() + mid.len() + i as int] == p2[i]);
    }
    assert(p1 =~= p2);
}

/// No pointer has both the plain form and the property form.
pub proof fn lemma_ref_forms_disjoint(s: Seq<char>, n: Seq<char>, n2: Seq<char>, p2: Seq<char>)
    requires
        is_component_ref(s, "schemas"@, n),
    ensures
        !is_schema_property_ref(s, n2, p2),
{
    reveal_strlit("#/components/");
    reveal_strlit("schemas");
    reveal_strlit("/");
    reveal_strlit("#/components/schemas/");
    reveal_strlit("/properties/");
    if is_schema_property_ref(s, n2, p2) {
        let pre = "#/components/"@ + "schemas"@ + "/"@;
        assert(pre =~= "#/components/schemas/"@);
        // In the property form a slash stands right after the schema name;
        // in the plain form everything after the prefix is slash-free.
        let k = pre.len() + n2.len() as int;
        assert(s.len() == "#/components/schemas/"@.len() + n2.len() + "/properties/"@.len()
            + p2.len());
        assert(s.len() == pre.len() + n.len());
        assert(k < s.len());
        assert(s[k] == "/properties/"@[0]);
        assert("/properties/"@[0] == '/');
        assert(s[k] == n[k - pre.len()]);
        assert(false);
    }
}

/// A string with a slash after the group prefix is no plain schema pointer.
proof fn lemma_no_schema_ref_with_slash(s: Seq<char>, i: int)
    requires
        "#/components/schemas/"@.len() <= i < s.len(),
        s[i] == '/',
        starts_with(s, "#/components/schemas/"@),
    ensures
        forall|n: Seq<char>| !is_component_ref(s, "schemas"@, n),
{
    reveal_strlit("#/components/");
    reveal_strlit("schemas");
    reveal_strlit("/");
    reveal_strlit("#/components/schemas/");
    assert forall|n: Seq<char>| !is_component_ref(s, "schemas"@, n) by {
        if is_component_ref(s, "schemas"@, n) {
            let p = "#/components/"@ + "schemas"@ + "/"@;
            assert(p.len() == 21);
            assert(s[p.len() + (i - p.len())] == n[i - p.len()]);
        }
    }
}

/// In a property pointer whose first slash after the prefix stands at `i`,
/// the schema name is exactly the text between the prefix and `i`.
proof fn lemma_property_ref_name(s: Seq<char>, n: Seq<char>, q: Seq<char>, i: int)
    requires
        is_schema_property_ref(s, n, q),
        "#/components/schemas/"@.len() <= i < s.len(),
        s[i] == '/',
        forall|j: int| "#/components/schemas/"@.len() <= j < i ==> s[j] != '/',
    ensures
        n == s.subrange("#/components/schemas/"@.len() as int, i),
{
    reveal_strlit("#/components/schemas/");
    reveal_strlit("/properties/");
    let plen = "#/components/schemas/"@.len() as int;
    assert(plen == 21);
    let k = n.len() as int;
    // The slash at the end of the name segment is the first one after the
    // prefix: no slash stands inside the name, and the name cannot run past
    // `i` because `s[i]` is a slash while names hold none.
    assert(s[plen + k] == '/');
    if plen + k < i {
        assert(false);
    }
    if plen + k > i {
        assert(s[i] == n[i - plen]);
        assert(false);
    }
    assert(n =~= s.subrange(plen, i));
}

} // verus!
