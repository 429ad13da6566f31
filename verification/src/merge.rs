//! Document merge: combining two documents under the policy "keep the left
//! document's value on conflict".  The symmetric policy is obtained by
//! swapping the arguments.

use vstd::prelude::*;
use crate::components::Components;
use crate::error::MergeError;
use crate::openapi::{OpenAPI, SecurityRequirement};
use crate::parameter::Parameter;
use crate::paths::PathItem;
use crate::reference::ReferenceOr;
use crate::server::Server;
use crate::strmap::{lemma_map_lookup_push, lemma_map_lookup_update, map_lookup, map_lookup_from, Entry, StringMap};
use crate::tag::Tag;

verus! {

/// Key-wise, order-preserving map merge: the base entries stay as they are,
/// and each added entry whose key is still unbound is appended in order.
pub open spec fn merge_entries<V>(base: Seq<Entry<V>>, add: Seq<Entry<V>>) -> Seq<Entry<V>>
    decreases add.len(),
{
    if add.len() == 0 {
        base
    } else {
        let m = merge_entries(base, add.drop_last());
        if map_lookup(m, add.last().key@) is Some {
            m
        } else {
            m.push(add.last())
        }
    }
}

/// Whether some server of the list has the given URL.
pub open spec fn has_url(ss: Seq<Server>, url: Seq<char>) -> bool {
    exists|i: int| 0 <= i < ss.len() && ss[i].url@ == url
}

/// Server-list merge: the base entries first, then each added server whose
/// URL is not already present.
pub open spec fn merge_servers(base: Seq<Server>, add: Seq<Server>) -> Seq<Server>
    decreases add.len(),
{
    if add.len() == 0 {
        base
    } else {
        let m = merge_servers(base, add.drop_last());
        if has_url(m, add.last().url@) {
            m
        } else {
            m.push(add.last())
        }
    }
}

/// Whether some tag of the list has the given name.
pub open spec fn has_tag(ts: Seq<Tag>, name: Seq<char>) -> bool {
    exists|i: int| 0 <= i < ts.len() && ts[i].name@ == name
}

/// Tag-list merge by name: the base entries first, then each added tag
/// whose name is not already present.
pub open spec fn merge_tags(base: Seq<Tag>, add: Seq<Tag>) -> Seq<Tag>
    decreases add.len(),
{
    if add.len() == 0 {
        base
    } else {
        let m = merge_tags(base, add.drop_last());
        if has_tag(m, add.last().name@) {
            m
        } else {
            m.push(add.last())
        }
    }
}

/// The scheme names a security requirement asks for.
pub open spec fn req_keys(r: SecurityRequirement) -> Set<Seq<char>> {
    Set::new(|k: Seq<char>| exists|i: int| 0 <= i < r.entries@.len() && r.entries@[i].key@ == k)
}

/// Whether some requirement of the list asks for exactly this key set.
pub open spec fn has_keyset(rs: Seq<SecurityRequirement>, keys: Set<Seq<char>>) -> bool {
    exists|i: int| 0 <= i < rs.len() && req_keys(rs[i]) == keys
}

/// Security-list merge: the base requirements first, then each added one
/// whose scheme-name set is not already present.
pub open spec fn merge_security(
    base: Seq<SecurityRequirement>,
    add: Seq<SecurityRequirement>,
) -> Seq<SecurityRequirement>
    decreases add.len(),
{
    if add.len() == 0 {
        base
    } else {
        let m = merge_security(base, add.drop_last());
        if has_keyset(m, req_keys(add.last())) {
            m
        } else {
            m.push(add.last())
        }
    }
}

/// The name a parameter entry carries: an inline parameter's own name, or
/// the pointer text of a reference entry.
pub open spec fn param_name(p: ReferenceOr<Parameter>) -> Seq<char> {
    match p {
        ReferenceOr::Item(p) => p.spec_parameter_data().name@,
        ReferenceOr::Reference { reference } => reference@,
    }
}

/// Two parameter lists agree: equal lengths, and pairwise-matching names.
pub open spec fn params_match(xs: Seq<ReferenceOr<Parameter>>, ys: Seq<ReferenceOr<Parameter>>) -> bool {
    xs.len() == ys.len() && forall|i: int| 0 <= i < xs.len() ==> param_name(xs[i]) == param_name(
        ys[i],
    )
}

/// How one path item absorbs another: the left operation wins where both
/// define a method, missing slots adopt the right one's, servers merge by
/// URL, extensions merge by key, and the left parameter list (already
/// checked to match the right one) is kept.
pub open spec fn path_item_merged(x: PathItem, y: PathItem, m: PathItem) -> bool {
    &&& m.summary == (if x.summary is Some {
        x.summary
    } else {
        y.summary
    })
    &&& m.description == (if x.description is Some {
        x.description
    } else {
        y.description
    })
    &&& m.get == (if x.get is Some {
        x.get
    } else {
        y.get
    })
    &&& m.put == (if x.put is Some {
        x.put
    } else {
        y.put
    })
    &&& m.post == (if x.post is Some {
        x.post
    } else {
        y.post
    })
    &&& m.delete == (if x.delete is Some {
        x.delete
    } else {
        y.delete
    })
    &&& m.options == (if x.options is Some {
        x.options
    } else {
        y.options
    })
    &&& m.head == (if x.head is Some {
        x.head
    } else {
        y.head
    })
    &&& m.patch == (if x.patch is Some {
        x.patch
    } else {
        y.patch
    })
    &&& m.trace == (if x.trace is Some {
        x.trace
    } else {
        y.trace
    })
    &&& m.servers@ == merge_servers(x.servers@, y.servers@)
    &&& m.parameters == x.parameters
    &&& m.extensions.entries@ == merge_entries(x.extensions.entries@, y.extensions.entries@)
}

/// The conflict one of the right document's path entries raises against the
/// left document, if any: a reference on either side is unsupported, and a
/// shared path whose parameter lists disagree is an error.
pub open spec fn path_conflict(
    amap: StringMap<ReferenceOr<PathItem>>,
    e: Entry<ReferenceOr<PathItem>>,
) -> Option<MergeError> {
    match e.value {
        ReferenceOr::Reference { .. } => Some(MergeError::PathItemIsReference(e.key)),
        ReferenceOr::Item(bpi) => match amap.spec_get(e.key@) {
            None => None,
            Some(ReferenceOr::Reference { .. }) => Some(MergeError::PathItemIsReference(e.key)),
            Some(ReferenceOr::Item(api)) => if params_match(api.parameters@, bpi.parameters@) {
                None
            } else {
                Some(MergeError::ParameterMismatch(e.key))
            },
        },
    }
}

/// The first conflict at or after position `i` of the right document's path
/// entries.
pub open spec fn first_conflict_from(
    amap: StringMap<ReferenceOr<PathItem>>,
    bs: Seq<Entry<ReferenceOr<PathItem>>>,
    i: int,
) -> Option<MergeError>
    decreases bs.len() - i,
{
    if i < 0 || i >= bs.len() {
        None
    } else {
        match path_conflict(amap, bs[i]) {
            Some(e) => Some(e),
            None => first_conflict_from(amap, bs, i + 1),
        }
    }
}

/// The first conflict the two documents' path maps raise, in the order of
/// the right document's entries.
pub open spec fn first_conflict(a: OpenAPI, b: OpenAPI) -> Option<MergeError> {
    first_conflict_from(a.paths.paths, b.paths.paths.entries@, 0)
}

/// Key-wise merge of one map into another: each added entry whose key is
/// still unbound is appended, in order; bound keys keep their value.
fn merge_map_into<V>(dst: &mut StringMap<V>, src: StringMap<V>)
    requires
        old(dst).wf(),
    ensures
        final(dst).entries@ == merge_entries(old(dst).entries@, src.entries@),
        final(dst).wf(),
{
    let ghost orig = src.entries@;
    let mut src = src;
    let ghost base = dst.entries@;
    let ghost mut i: int = 0;
    while src.entries.len() > 0
        invariant
            dst.wf(),
            0 <= i,
            i + src.entries@.len() == orig.len(),
            src.entries@ =~= orig.skip(i),
            dst.entries@ == merge_entries(base, orig.take(i)),
        decreases src.entries@.len(),
    {
        let e = src.entries.remove(0);
        proof {
            assert(e == orig[i]);
            assert(orig.take(i + 1).drop_last() =~= orig.take(i));
            assert(orig.take(i + 1).last() == orig[i]);
            assert(src.entries@ =~= orig.skip(i + 1));
        }
        if !dst.contains_key(e.key.as_str()) {
            let ghost before = dst.entries@;
            let key = e.key;
            let value = e.value;
            dst.insert(key, value);
            proof {
                assert(dst.entries@ == before.push(orig[i]));
            }
        }
        proof {
            i = i + 1;
        }
    }
    proof {
        assert(orig.take(i) =~= orig);
    }
}

/// Whether some server of the list has the given URL.
fn has_url_exec(ss: &Vec<Server>, url: &str) -> (r: bool)
    ensures
        r == has_url(ss@, url@),
{
    let mut i: usize = 0;
    while i < ss.len()
        invariant
            i <= ss@.len(),
            forall|j: int| 0 <= j < i ==> ss@[j].url@ != url@,
        decreases ss@.len() - i,
    {
        if crate::value::str_eq(ss[i].url.as_str(), url) {
            return true;
        }
        i += 1;
    }
    false
}

/// Appends each added server whose URL is not already present.
fn merge_servers_into(dst: &mut Vec<Server>, src: Vec<Server>)
    ensures
        final(dst)@ == merge_servers(old(dst)@, src@),
{
    let ghost orig = src@;
    let ghost base = old(dst)@;
    let mut src = src;
    let ghost mut i: int = 0;
    while src.len() > 0
        invariant
            0 <= i,
            i + src@.len() == orig.len(),
            src@ =~= orig.skip(i),
            dst@ == merge_servers(base, orig.take(i)),
        decreases src@.len(),
    {
        let s = src.remove(0);
        proof {
            assert(s == orig[i]);
            assert(orig.take(i + 1).drop_last() =~= orig.take(i));
            assert(orig.take(i + 1).last() == orig[i]);
            assert(src@ =~= orig.skip(i + 1));
        }
        if !has_url_exec(dst, s.url.as_str()) {
            dst.push(s);
        }
        proof {
            i = i + 1;
        }
    }
    proof {
        assert(orig.take(i) =~= orig);
    }
}

/// Whether some tag of the list has the given name.
fn has_tag_exec(ts: &Vec<Tag>, name: &str) -> (r: bool)
    ensures
        r == has_tag(ts@, name@),
{
    let mut i: usize = 0;
    while i < ts.len()
        invariant
            i <= ts@.len(),
            forall|j: int| 0 <= j < i ==> ts@[j].name@ != name@,
        decreases ts@.len() - i,
    {
        if crate::value::str_eq(ts[i].name.as_str(), name) {
            return true;
        }
        i += 1;
    }
    false
}

/// Appends each added tag whose name is not already present.
fn merge_tags_into(dst: &mut Vec<Tag>, src: Vec<Tag>)
    ensures
        final(dst)@ == merge_tags(old(dst)@, src@),
{
    let ghost orig = src@;
    let ghost base = old(dst)@;
    let mut src = src;
    let ghost mut i: int = 0;
    while src.len() > 0
        invariant
            0 <= i,
            i + src@.len() == orig.len(),
            src@ =~= orig.skip(i),
            dst@ == merge_tags(base, orig.take(i)),
        decreases src@.len(),
    {
        let t = src.remove(0);
        proof {
            assert(t == orig[i]);
            assert(orig.take(i + 1).drop_last() =~= orig.take(i));
            assert(orig.take(i + 1).last() == orig[i]);
            assert(src@ =~= orig.skip(i + 1));
        }
        if !has_tag_exec(dst, t.name.as_str()) {
            dst.push(t);
        }
        proof {
            i = i + 1;
        }
    }
    proof {
        assert(orig.take(i) =~= orig);
    }
}

/// A bound key stands at some position of the entry list.
proof fn lemma_exists_key_contains<V>(es: Seq<Entry<V>>, k: Seq<char>, i: int)
    requires
        0 <= i < es.len(),
        es[i].key@ == k,
    ensures
        map_lookup(es, k) is Some,
{
    lemma_some_from(es, k, 0, i);
}

proof fn lemma_some_from<V>(es: Seq<Entry<V>>, k: Seq<char>, p: int, i: int)
    requires
        0 <= p <= i < es.len(),
        es[i].key@ == k,
    ensures
        map_lookup_from(es, k, p) is Some,
    decreases i - p,
{
    if p < i && es[p].key@ != k {
        lemma_some_from(es, k, p + 1, i);
    }
}

/// Whether two requirements ask for exactly the same scheme names.
fn same_keyset(x: &SecurityRequirement, y: &SecurityRequirement) -> (r: bool)
    ensures
        r == (req_keys(*x) == req_keys(*y)),
{
    let mut i: usize = 0;
    while i < x.entries.len()
        invariant
            i <= x.entries@.len(),
            forall|j: int| 0 <= j < i ==> y.spec_contains(#[trigger] x.entries@[j].key@),
        decreases x.entries@.len() - i,
    {
        if !y.contains_key(x.entries[i].key.as_str()) {
            proof {
                lemma_exists_key_contains(x.entries@, x.entries@[i as int].key@, i as int);
                assert(req_keys(*x).contains(x.entries@[i as int].key@));
                assert(!req_keys(*y).contains(x.entries@[i as int].key@)) by {
                    if req_keys(*y).contains(x.entries@[i as int].key@) {
                        let j = choose|j: int|
                            0 <= j < y.entries@.len() && y.entries@[j].key@ == x.entries@[i as int].key@;
                        lemma_exists_key_contains(y.entries@, x.entries@[i as int].key@, j);
                    }
                }
            }
            return false;
        }
        i += 1;
    }
    let mut j: usize = 0;
    while j < y.entries.len()
        invariant
            j <= y.entries@.len(),
            forall|k: int| 0 <= k < x.entries@.len() ==> y.spec_contains(#[trigger] x.entries@[k].key@),
            forall|k: int| 0 <= k < j ==> x.spec_contains(#[trigger] y.entries@[k].key@),
        decreases y.entries@.len() - j,
    {
        if !x.contains_key(y.entries[j].key.as_str()) {
            proof {
                lemma_exists_key_contains(y.entries@, y.entries@[j as int].key@, j as int);
                assert(req_keys(*y).contains(y.entries@[j as int].key@));
                assert(!req_keys(*x).contains(y.entries@[j as int].key@)) by {
                    if req_keys(*x).contains(y.entries@[j as int].key@) {
                        let k = choose|k: int|
                            0 <= k < x.entries@.len() && x.entries@[k].key@ == y.entries@[j as int].key@;
                        lemma_exists_key_contains(x.entries@, y.entries@[j as int].key@, k);
                    }
                }
            }
            return false;
        }
        j += 1;
    }
    proof {
        assert(req_keys(*x) =~= req_keys(*y)) by {
            assert forall|k: Seq<char>| req_keys(*x).contains(k) implies req_keys(*y).contains(
                k,
            ) by {
                let i = choose|i: int| 0 <= i < x.entries@.len() && x.entries@[i].key@ == k;
                y.lemma_contains_at(k);
            }
            assert forall|k: Seq<char>| req_keys(*y).contains(k) implies req_keys(*x).contains(
                k,
            ) by {
                let i = choose|i: int| 0 <= i < y.entries@.len() && y.entries@[i].key@ == k;
                x.lemma_contains_at(k);
            }
        }
    }
    true
}

/// Whether some requirement of the list asks for exactly the same scheme
/// names as the given one.
fn has_keyset_exec(rs: &Vec<SecurityRequirement>, y: &SecurityRequirement) -> (r: bool)
    ensures
        r == has_keyset(rs@, req_keys(*y)),
{
    let mut i: usize = 0;
    while i < rs.len()
        invariant
            i <= rs@.len(),
            forall|j: int| 0 <= j < i ==> req_keys(rs@[j]) != req_keys(*y),
        decreases rs@.len() - i,
    {
        if same_keyset(&rs[i], y) {
            return true;
        }
        i += 1;
    }
    false
}

/// Appends each added requirement whose scheme-name set is not already
/// present.
fn merge_security_into(dst: &mut Vec<SecurityRequirement>, src: Vec<SecurityRequirement>)
    ensures
        final(dst)@ == merge_security(old(dst)@, src@),
{
    let ghost orig = src@;
    let ghost base = old(dst)@;
    let mut src = src;
    let ghost mut i: int = 0;
    while src.len() > 0
        invariant
            0 <= i,
            i + src@.len() == orig.len(),
            src@ =~= orig.skip(i),
            dst@ == merge_security(base, orig.take(i)),
        decreases src@.len(),
    {
        let s = src.remove(0);
        proof {
            assert(s == orig[i]);
            assert(orig.take(i + 1).drop_last() =~= orig.take(i));
            assert(orig.take(i + 1).last() == orig[i]);
            assert(src@ =~= orig.skip(i + 1));
        }
        if !has_keyset_exec(dst, &s) {
            dst.push(s);
        }
        proof {
            i = i + 1;
        }
    }
    proof {
        assert(orig.take(i) =~= orig);
    }
}

/// Whether two parameter lists have equal length and pairwise-matching
/// names.
fn params_match_exec(xs: &Vec<ReferenceOr<Parameter>>, ys: &Vec<ReferenceOr<Parameter>>) -> (r:
    bool)
    ensures
        r == params_match(xs@, ys@),
{
    if xs.len() != ys.len() {
        return false;
    }
    let mut i: usize = 0;
    while i < xs.len()
        invariant
            i <= xs@.len(),
            xs@.len() == ys@.len(),
            forall|j: int| 0 <= j < i ==> param_name(xs@[j]) == param_name(ys@[j]),
        decreases xs@.len() - i,
    {
        let xn = match &xs[i] {
            ReferenceOr::Item(p) => &p.parameter_data_ref().name,
            ReferenceOr::Reference { reference } => reference,
        };
        let yn = match &ys[i] {
            ReferenceOr::Item(p) => &p.parameter_data_ref().name,
            ReferenceOr::Reference { reference } => reference,
        };
        if !crate::value::str_eq(xn.as_str(), yn.as_str()) {
            return false;
        }
        i += 1;
    }
    true
}

/// What a merged path-map binding must hold, given what the two documents
/// bound: a key of one document keeps its item, and a key of both holds the
/// absorbed item.
pub open spec fn merged_get_rel(
    av: Option<ReferenceOr<PathItem>>,
    bv: Option<ReferenceOr<PathItem>>,
    cur: Option<ReferenceOr<PathItem>>,
) -> bool {
    match (av, bv) {
        (Option::None, Option::None) => cur is None,
        (Option::Some(v), Option::None) => cur == Some(v),
        (Option::None, Option::Some(v)) => cur == Some(v),
        (Option::Some(x), Option::Some(y)) => match (x, y) {
            (ReferenceOr::Item(xi), ReferenceOr::Item(yi)) => cur matches Some(c) && c matches ReferenceOr::Item(m)
                && path_item_merged(xi, yi, m),
            _ => true,
        },
    }
}

/// A conflict-free scan has no conflict at any single entry.
proof fn lemma_no_conflict_each(
    amap: StringMap<ReferenceOr<PathItem>>,
    bs: Seq<Entry<ReferenceOr<PathItem>>>,
    i: int,
)
    requires
        first_conflict_from(amap, bs, 0) is None,
        0 <= i < bs.len(),
    ensures
        path_conflict(amap, bs[i]) is None,
{
    lemma_no_conflict_from(amap, bs, 0, i);
}

proof fn lemma_no_conflict_from(
    amap: StringMap<ReferenceOr<PathItem>>,
    bs: Seq<Entry<ReferenceOr<PathItem>>>,
    p: int,
    i: int,
)
    requires
        first_conflict_from(amap, bs, p) is None,
        0 <= p <= i < bs.len(),
    ensures
        path_conflict(amap, bs[i]) is None,
    decreases i - p,
{
    if p < i {
        lemma_no_conflict_from(amap, bs, p + 1, i);
    }
}

/// Everything the merge requires of a document before it can stand on
/// either side: its maps hold no repeated keys.
pub open spec fn mergeable(d: OpenAPI) -> bool {
    &&& d.paths.paths.wf()
    &&& d.paths.extensions.wf()
    &&& d.info.extensions.wf()
    &&& d.extensions.wf()
    &&& match d.components {
        Some(c) => c.wf(),
        None => true,
    }
    &&& forall|i: int|
        0 <= i < d.paths.paths.entries@.len() ==> match #[trigger] d.paths.paths.entries@[i].value {
            ReferenceOr::Item(pi) => pi.extensions.wf(),
            ReferenceOr::Reference { .. } => true,
        }
}

/// Merges the right document into the left one under the policy "keep the
/// left value on conflict": the left document's metadata stays, servers
/// merge by URL, paths merge per operation, component tables merge key-wise,
/// security requirements merge by scheme-name set, tags merge by name, and
/// extension maps merge by key.
///
/// A path entry that is a reference on either side, or a path defined in
/// both documents whose parameter lists differ in length or names, is a
/// hard error: the left document is then left exactly as it was.
pub fn merge(a: &mut OpenAPI, b: OpenAPI) -> (r: Result<(), MergeError>)
    requires
        mergeable(*old(a)),
        mergeable(b),
    ensures
        match r {
            Err(e) => first_conflict(*old(a), b) == Some(e) && *final(a) == *old(a),
            Ok(()) => {
                &&& first_conflict(*old(a), b) is None
                &&& final(a).openapi == old(a).openapi
                &&& final(a).info.title == old(a).info.title
                &&& final(a).info.description == old(a).info.description
                &&& final(a).info.terms_of_service == old(a).info.terms_of_service
                &&& final(a).info.contact == old(a).info.contact
                &&& final(a).info.license == old(a).info.license
                &&& final(a).info.version == old(a).info.version
                &&& final(a).info.extensions.entries@ == merge_entries(
                    old(a).info.extensions.entries@,
                    b.info.extensions.entries@,
                )
                &&& final(a).servers@ == merge_servers(old(a).servers@, b.servers@)
                &&& final(a).paths.paths.wf()
                &&& forall|k: Seq<char>|
                    #[trigger] final(a).paths.paths.spec_contains(k) <==> old(
                        a,
                    ).paths.paths.spec_contains(k) || b.paths.paths.spec_contains(k)
                &&& forall|k: Seq<char>|
                    merged_get_rel(
                        old(a).paths.paths.spec_get(k),
                        b.paths.paths.spec_get(k),
                        #[trigger] final(a).paths.paths.spec_get(k),
                    )
                &&& final(a).paths.extensions.entries@ == merge_entries(
                    old(a).paths.extensions.entries@,
                    b.paths.extensions.entries@,
                )
                &&& match (old(a).components, b.components) {
                    (Option::None, bc) => final(a).components == bc,
                    (Option::Some(ac), Option::None) => final(a).components == Some(ac),
                    (Option::Some(ac), Option::Some(bc)) => final(a).components matches Some(c)
                        && {
                        &&& c.security_schemes.entries@ == merge_entries(
                            ac.security_schemes.entries@,
                            bc.security_schemes.entries@,
                        )
                        &&& c.responses.entries@ == merge_entries(
                            ac.responses.entries@,
                            bc.responses.entries@,
                        )
                        &&& c.parameters.entries@ == merge_entries(
                            ac.parameters.entries@,
                            bc.parameters.entries@,
                        )
                        &&& c.examples.entries@ == merge_entries(
                            ac.examples.entries@,
                            bc.examples.entries@,
                        )
                        &&& c.request_bodies.entries@ == merge_entries(
                            ac.request_bodies.entries@,
                            bc.request_bodies.entries@,
                        )
                        &&& c.headers.entries@ == merge_entries(
                            ac.headers.entries@,
                            bc.headers.entries@,
                        )
                        &&& c.schemas.entries@ == merge_entries(
                            ac.schemas.entries@,
                            bc.schemas.entries@,
                        )
                        &&& c.links.entries@ == merge_entries(ac.links.entries@, bc.links.entries@)
                        &&& c.callbacks.entries@ == merge_entries(
                            ac.callbacks.entries@,
                            bc.callbacks.entries@,
                        )
                    },
                }
                &&& match (old(a).security, b.security) {
                    (Option::None, bs) => final(a).security == bs,
                    (Option::Some(asec), Option::None) => final(a).security == Some(asec),
                    (Option::Some(asec), Option::Some(bsec)) => final(a).security matches Some(s)
                        && s@ == merge_security(asec@, bsec@),
                }
                &&& final(a).tags@ == merge_tags(old(a).tags@, b.tags@)
                &&& final(a).external_docs == (if old(a).external_docs is Some {
                    old(a).external_docs
                } else {
                    b.external_docs
                })
                &&& final(a).extensions.entries@ == merge_entries(
                    old(a).extensions.entries@,
                    b.extensions.entries@,
                )
            },
        },
{
    // First pass: find any conflict before anything is changed, so that a
    // failed merge leaves the left document untouched.
    let bentries = &b.paths.paths.entries;
    let mut i: usize = 0;
    while i < bentries.len()
        invariant
            i <= bentries@.len(),
            bentries == b.paths.paths.entries,
            a == old(a),
            first_conflict_from(a.paths.paths, bentries@, 0) == first_conflict_from(
                a.paths.paths,
                bentries@,
                i as int,
            ),
        decreases bentries@.len() - i,
    {
        let ghost cur = bentries@[i as int];
        match &bentries[i].value {
            ReferenceOr::Reference { .. } => {
                proof {
                    assert(path_conflict(a.paths.paths, cur) == Some(
                        MergeError::PathItemIsReference(cur.key),
                    ));
                    assert(first_conflict(*a, b) == Some(MergeError::PathItemIsReference(cur.key)));
                }
                return Err(MergeError::PathItemIsReference(bentries[i].key.clone()));
            },
            ReferenceOr::Item(bpi) => {
                match a.paths.paths.get(bentries[i].key.as_str()) {
                    None => {
                        proof {
                            assert(path_conflict(a.paths.paths, cur) is None);
                        }
                    },
                    Some(ReferenceOr::Reference { .. }) => {
                        proof {
                            assert(path_conflict(a.paths.paths, cur) == Some(
                                MergeError::PathItemIsReference(cur.key),
                            ));
                            assert(first_conflict(*a, b) == Some(
                                MergeError::PathItemIsReference(cur.key),
                            ));
                        }
                        return Err(MergeError::PathItemIsReference(bentries[i].key.clone()));
                    },
                    Some(ReferenceOr::Item(api)) => {
                        if !params_match_exec(&api.parameters, &bpi.parameters) {
                            proof {
                                assert(path_conflict(a.paths.paths, cur) == Some(
                                    MergeError::ParameterMismatch(cur.key),
                                ));
                                assert(first_conflict(*a, b) == Some(
                                    MergeError::ParameterMismatch(cur.key),
                                ));
                            }
                            return Err(MergeError::ParameterMismatch(bentries[i].key.clone()));
                        }
                        proof {
                            assert(path_conflict(a.paths.paths, cur) is None);
                        }
                    },
                }
            },
        }
        i += 1;
    }
    let ghost a0 = *a;
    let OpenAPI {
        openapi: _b_openapi,
        info: b_info,
        servers: b_servers,
        paths: b_paths,
        components: b_components,
        security: b_security,
        tags: b_tags,
        external_docs: b_external_docs,
        extensions: b_extensions,
    } = b;

    merge_map_into(&mut a.info.extensions, b_info.extensions);
    merge_servers_into(&mut a.servers, b_servers);
    merge_paths(&mut a.paths.paths, b_paths.paths);
    merge_map_into(&mut a.paths.extensions, b_paths.extensions);
    if a.components.is_none() {
        a.components = b_components;
    } else if let Some(bc) = b_components {
        match &mut a.components {
            Some(ac) => {
                let Components {
                    security_schemes,
                    responses,
                    parameters,
                    examples,
                    request_bodies,
                    headers,
                    schemas,
                    links,
                    callbacks,
                } = bc;
                merge_map_into(&mut ac.security_schemes, security_schemes);
                merge_map_into(&mut ac.responses, responses);
                merge_map_into(&mut ac.parameters, parameters);
                merge_map_into(&mut ac.examples, examples);
                merge_map_into(&mut ac.request_bodies, request_bodies);
                merge_map_into(&mut ac.headers, headers);
                merge_map_into(&mut ac.schemas, schemas);
                merge_map_into(&mut ac.links, links);
                merge_map_into(&mut ac.callbacks, callbacks);
            },
            None => unreached(),
        }
    }
    if a.security.is_none() {
        a.security = b_security;
    } else if let Some(bsec) = b_security {
        match &mut a.security {
            Some(asec) => merge_security_into(asec, bsec),
            None => unreached(),
        }
    }
    merge_tags_into(&mut a.tags, b_tags);
    if a.external_docs.is_none() {
        a.external_docs = b_external_docs;
    }
    merge_map_into(&mut a.extensions, b_extensions);
    Ok(())
}

/// Under unique keys, the key at a position is bound nowhere in the strict
/// prefix before it.
proof fn lemma_taken_key_distinct(
    orig: Seq<Entry<ReferenceOr<PathItem>>>,
    i: int,
    k: Seq<char>,
)
    requires
        0 <= i < orig.len(),
        forall|j1: int, j2: int| 0 <= j1 < j2 < orig.len() ==> orig[j1].key@ != orig[j2].key@,
        orig[i].key@ == k,
    ensures
        map_lookup(orig.take(i), k) is None,
{
    if map_lookup(orig.take(i), k) is Some {
        lemma_lookup_some_has_index(orig.take(i), k, 0);
        let j = choose|j: int| 0 <= j < orig.take(i).len() && orig.take(i)[j].key@ == k;
        assert(orig[j].key@ == k);
        assert(false);
    }
}

/// A successful lookup names the position of a matching key.
proof fn lemma_lookup_some_has_index<V>(es: Seq<Entry<V>>, k: Seq<char>, p: int)
    requires
        0 <= p <= es.len(),
        map_lookup_from(es, k, p) is Some,
    ensures
        exists|j: int| p <= j < es.len() && es[j].key@ == k,
    decreases es.len() - p,
{
    if es[p].key@ == k {
    } else {
        lemma_lookup_some_has_index(es, k, p + 1);
    }
}

/// Merges the right path map into the left one, per path and per operation.
fn merge_paths(
    amap: &mut StringMap<ReferenceOr<PathItem>>,
    bmap: StringMap<ReferenceOr<PathItem>>,
)
    requires
        old(amap).wf(),
        first_conflict_from(*old(amap), bmap.entries@, 0) is None,
        forall|i: int|
            0 <= i < old(amap).entries@.len() ==> match #[trigger] old(amap).entries@[i].value {
                ReferenceOr::Item(pi) => pi.extensions.wf(),
                ReferenceOr::Reference { .. } => true,
            },
        bmap.wf(),
        forall|i: int|
            0 <= i < bmap.entries@.len() ==> match #[trigger] bmap.entries@[i].value {
                ReferenceOr::Item(pi) => pi.extensions.wf(),
                ReferenceOr::Reference { .. } => true,
            },
    ensures
        final(amap).wf(),
        forall|k: Seq<char>|
            #[trigger] final(amap).spec_contains(k) <==> old(amap).spec_contains(k)
                || bmap.spec_contains(k),
        forall|k: Seq<char>|
            merged_get_rel(
                old(amap).spec_get(k),
                bmap.spec_get(k),
                #[trigger] final(amap).spec_get(k),
            ),
{
    let ghost a0 = *amap;
    let ghost orig = bmap.entries@;
    let mut src = bmap;
    let ghost mut i: int = 0;
    while src.entries.len() > 0
        invariant
            amap.wf(),
            0 <= i,
            i + src.entries@.len() == orig.len(),
            src.entries@ =~= orig.skip(i),
            first_conflict_from(a0, orig, 0) is None,
            forall|j1: int, j2: int| 0 <= j1 < j2 < orig.len() ==> orig[j1].key@ != orig[j2].key@,
            forall|j: int|
                0 <= j < orig.len() ==> match #[trigger] orig[j].value {
                    ReferenceOr::Item(pi) => pi.extensions.wf(),
                    ReferenceOr::Reference { .. } => true,
                },
            forall|j: int|
                0 <= j < amap.entries@.len() ==> match #[trigger] amap.entries@[j].value {
                    ReferenceOr::Item(pi) => pi.extensions.wf(),
                    ReferenceOr::Reference { .. } => true,
                },
            forall|k: Seq<char>|
                #[trigger] amap.spec_contains(k) <==> a0.spec_contains(k) || map_lookup(
                    orig.take(i),
                    k,
                ) is Some,
            forall|k: Seq<char>|
                merged_get_rel(
                    a0.spec_get(k),
                    map_lookup(orig.take(i), k),
                    #[trigger] amap.spec_get(k),
                ),
        decreases src.entries@.len(),
    {
        let e = src.entries.remove(0);
        proof {
            assert(e == orig[i]);
            assert(src.entries@ =~= orig.skip(i + 1));
            assert(orig.take(i + 1) =~= orig.take(i).push(orig[i]));
            lemma_no_conflict_each(a0, orig, i);
            // This key occurs nowhere else in the right map, so no earlier
            // step has bound it and no later step will.
            assert forall|k: Seq<char>| true implies map_lookup(orig.take(i + 1), k) == (if e.key@
                == k {
                Some(e.value)
            } else {
                map_lookup(orig.take(i), k)
            }) by {
                assert(orig.take(i + 1).drop_last() =~= orig.take(i));
                assert(orig.take(i + 1).last() == orig[i]);
                lemma_map_lookup_push(orig.take(i), orig[i], k);
                if e.key@ == k && map_lookup(orig.take(i), k) is Some {
                    lemma_taken_key_distinct(orig, i, k);
                }
            }
        }
        let bpi = match e.value {
            ReferenceOr::Item(bpi) => bpi,
            ReferenceOr::Reference { .. } => unreached(),
        };
        let ghost pre = *amap;
        match amap.index_of(e.key.as_str()) {
            None => {
                amap.insert(e.key, ReferenceOr::Item(bpi));
            },
            Some(idx) => {
                proof {
                    lemma_taken_key_distinct(orig, i, e.key@);
                    assert(merged_get_rel(
                        a0.spec_get(e.key@),
                        map_lookup(orig.take(i), e.key@),
                        amap.spec_get(e.key@),
                    ));
                    assert(amap.spec_get(e.key@) == Some(amap.entries@[idx as int].value));
                    assert(path_conflict(a0, orig[i]) is None);
                    assert(match amap.entries@[idx as int].value {
                        ReferenceOr::Item(pi) => pi.extensions.wf(),
                        ReferenceOr::Reference { .. } => false,
                    });
                }
                let placeholder = ReferenceOr::Item(PathItem::new());
                let ghost before = amap.entries@;
                let previous = amap.set_value_at(idx, placeholder);
                let api = match previous {
                    ReferenceOr::Item(api) => api,
                    ReferenceOr::Reference { .. } => unreached(),
                };
                let merged = merge_path_items(api, bpi);
                amap.set_value_at(idx, ReferenceOr::Item(merged));
                proof {
                    assert(amap.entries@ =~= before.update(
                        idx as int,
                        Entry {
                            key: before[idx as int].key,
                            value: ReferenceOr::Item(merged),
                        },
                    ));
                    assert forall|k: Seq<char>| true implies #[trigger] amap.spec_get(k) == (if
                    before[idx as int].key@ == k {
                        Some(ReferenceOr::<PathItem>::Item(merged))
                    } else {
                        map_lookup(before, k)
                    }) by {
                        lemma_map_lookup_update(
                            before,
                            idx as int,
                            ReferenceOr::Item(merged),
                            k,
                        );
                    }
                }
            },
        }
        proof {
            assert forall|k: Seq<char>|
                #[trigger] amap.spec_contains(k) <==> (a0.spec_contains(k) || map_lookup(
                    orig.take(i + 1),
                    k,
                ) is Some) by {
                assert(merged_get_rel(a0.spec_get(k), map_lookup(orig.take(i), k), pre.spec_get(k)));
                assert(pre.spec_contains(k) <==> (a0.spec_contains(k) || map_lookup(
                    orig.take(i),
                    k,
                ) is Some));
            }
            assert forall|k: Seq<char>|
                merged_get_rel(
                    a0.spec_get(k),
                    map_lookup(orig.take(i + 1), k),
                    #[trigger] amap.spec_get(k),
                ) by {
                assert(merged_get_rel(a0.spec_get(k), map_lookup(orig.take(i), k), pre.spec_get(k)));
            }
            i = i + 1;
        }
    }
    proof {
        assert(orig.take(i) =~= orig);
    }
}

/// Absorbs the right path item into the left one: the left operation wins
/// where both define a method, servers merge by URL, extensions merge by
/// key, and the left parameter list is kept.
fn merge_path_items(x: PathItem, y: PathItem) -> (m: PathItem)
    requires
        x.extensions.wf(),
    ensures
        path_item_merged(x, y, m),
        m.extensions.wf(),
{
    let mut servers = x.servers;
    merge_servers_into(&mut servers, y.servers);
    let mut extensions = x.extensions;
    merge_map_into(&mut extensions, y.extensions);
    PathItem {
        summary: if x.summary.is_some() {
            x.summary
        } else {
            y.summary
        },
        description: if x.description.is_some() {
            x.description
        } else {
            y.description
        },
        get: if x.get.is_some() {
            x.get
        } else {
            y.get
        },
        put: if x.put.is_some() {
            x.put
        } else {
            y.put
        },
        post: if x.post.is_some() {
            x.post
        } else {
            y.post
        },
        delete: if x.delete.is_some() {
            x.delete
        } else {
            y.delete
        },
        options: if x.options.is_some() {
            x.options
        } else {
            y.options
        },
        head: if x.head.is_some() {
            x.head
        } else {
            y.head
        },
        patch: if x.patch.is_some() {
            x.patch
        } else {
            y.patch
        },
        trace: if x.trace.is_some() {
            x.trace
        } else {
            y.trace
        },
        servers,
        parameters: x.parameters,
        extensions,
    }
}

} // verus!
