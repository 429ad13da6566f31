//! The generic structured-data tree that documents are decoded from and
//! re-encoded to: maps with string keys, sequences, strings, numbers
//! (integral or fractional), booleans and null.

use vstd::prelude::*;
use vstd::string::StrSliceExecFns;

verus! {

/// A numeric literal.  Integral numbers carry their exact value; fractional
/// numbers are carried opaquely as the bit pattern of their binary64
/// representation, which the model never interprets.
#[derive(Debug, Clone, Copy, PartialEq, Eq)]
pub enum Number {
    Int(i64),
    Frac(u64),
}

impl Number {
    /// True exactly for integral numbers.
    pub open spec fn spec_is_int(self) -> bool {
        self is Int
    }

    /// The value of an integral number.
    pub open spec fn spec_int(self) -> i64 {
        self->Int_0
    }

    /// True exactly for integral numbers.
    pub fn is_int(&self) -> (r: bool)
        ensures
            r == self.spec_is_int(),
    {
        match self {
            Number::Int(_) => true,
            Number::Frac(_) => false,
        }
    }

    /// The exact value of an integral number, or `None` for a fractional one.
    pub fn as_int(&self) -> (r: Option<i64>)
        ensures
            r == if self.spec_is_int() {
                Some(self.spec_int())
            } else {
                None::<i64>
            },
    {
        match self {
            Number::Int(i) => Some(*i),
            Number::Frac(_) => None,
        }
    }
}

/// One field of an object: a key and the value stored under it.
#[derive(Debug, PartialEq)]
pub struct Member {
    pub name: String,
    pub value: Value,
}

/// A generic structured value.
#[derive(Debug, PartialEq)]
pub enum Value {
    Null,
    Bool(bool),
    Num(Number),
    Text(String),
    List(Vec<Value>),
    Object(Vec<Member>),
}

/// The mathematical shape of a [`Value`]: the same tree with strings as
/// character sequences and containers as sequences.  Contracts compare
/// values through this view, which ignores how the trees are allocated.
pub enum GValue {
    Null,
    Bool(bool),
    Num(Number),
    Text(Seq<char>),
    List(Seq<GValue>),
    Object(Seq<GMember>),
}

/// The mathematical shape of a [`Member`].
pub struct GMember {
    pub name: Seq<char>,
    pub value: GValue,
}

impl Value {
    /// The mathematical shape of this value.
    pub open spec fn gv(self) -> GValue
        decreases self,
    {
        match self {
            Value::Null => GValue::Null,
            Value::Bool(b) => GValue::Bool(b),
            Value::Num(n) => GValue::Num(n),
            Value::Text(s) => GValue::Text(s@),
            Value::List(vs) => GValue::List(gv_list(vs@)),
            Value::Object(ms) => GValue::Object(gv_members(ms@)),
        }
    }
}

impl Member {
    /// The mathematical shape of this member.
    pub open spec fn gv(self) -> GMember
        decreases self,
    {
        GMember { name: self.name@, value: self.value.gv() }
    }
}

/// The shapes of a sequence of values, elementwise.
pub open spec fn gv_list(vs: Seq<Value>) -> Seq<GValue>
    decreases vs,
{
    if vs.len() == 0 {
        Seq::empty()
    } else {
        gv_list(vs.drop_last()).push(vs.last().gv())
    }
}

/// The shapes of an object's member list, elementwise.
pub open spec fn gv_members(ms: Seq<Member>) -> Seq<GMember>
    decreases ms,
{
    if ms.len() == 0 {
        Seq::empty()
    } else {
        gv_members(ms.drop_last()).push(ms.last().gv())
    }
}

/// `gv_list` maps the sequence elementwise.
pub proof fn lemma_gv_list(vs: Seq<Value>)
    ensures
        gv_list(vs).len() == vs.len(),
        forall|i: int| 0 <= i < vs.len() ==> gv_list(vs)[i] == vs[i].gv(),
    decreases vs,
{
    if vs.len() > 0 {
        lemma_gv_list(vs.drop_last());
    }
}

/// `gv_members` maps the member list elementwise.
pub proof fn lemma_gv_members(ms: Seq<Member>)
    ensures
        gv_members(ms).len() == ms.len(),
        forall|i: int| 0 <= i < ms.len() ==> gv_members(ms)[i] == ms[i].gv(),
    decreases ms,
{
    if ms.len() > 0 {
        lemma_gv_members(ms.drop_last());
    }
}

/// The value stored under `key` at or after position `i`, scanning forward;
/// the first occurrence wins.
pub open spec fn lookup_from(ms: Seq<Member>, key: Seq<char>, i: int) -> Option<Value>
    decreases ms.len() - i,
{
    if i < 0 || i >= ms.len() {
        None
    } else if ms[i].name@ == key {
        Some(ms[i].value)
    } else {
        lookup_from(ms, key, i + 1)
    }
}

/// The value stored under `key` in an object's member list.
pub open spec fn lookup(ms: Seq<Member>, key: Seq<char>) -> Option<Value> {
    lookup_from(ms, key, 0)
}

/// Whether every key occurs at most once.
pub open spec fn unique_keys(ms: Seq<Member>) -> bool {
    forall|i: int, j: int| 0 <= i < j < ms.len() ==> ms[i].name@ != ms[j].name@
}

/// True exactly when the two string slices hold the same characters.
pub fn str_eq(a: &str, b: &str) -> (r: bool)
    ensures
        r == (a@ == b@),
{
    let alen = a.unicode_len();
    let blen = b.unicode_len();
    if alen != blen {
        return false;
    }
    let mut i: usize = 0;
    while i < alen
        invariant
            alen == a@.len(),
            alen == b@.len(),
            i <= alen,
            forall|j: int| 0 <= j < i ==> a@[j] == b@[j],
        decreases alen - i,
    {
        if a.get_char(i) != b.get_char(i) {
            return false;
        }
        i += 1;
    }
    proof {
        assert(a@ =~= b@);
    }
    true
}

/// Looks a field up in an object's member list; the first occurrence wins.
pub fn obj_get<'a>(ms: &'a Vec<Member>, key: &str) -> (r: Option<&'a Value>)
    ensures
        match r {
            Some(v) => lookup(ms@, key@) == Some(*v),
            None => lookup(ms@, key@) is None,
        },
{
    let mut i: usize = 0;
    while i < ms.len()
        invariant
            i <= ms.len(),
            lookup(ms@, key@) == lookup_from(ms@, key@, i as int),
        decreases ms.len() - i,
    {
        if str_eq(ms[i].name.as_str(), key) {
            return Some(&ms[i].value);
        }
        i += 1;
    }
    None
}

impl Value {
    /// The value stored under `key`, when this value is an object that has
    /// such a field.
    pub open spec fn spec_get(self, key: Seq<char>) -> Option<Value> {
        match self {
            Value::Object(ms) => lookup(ms@, key),
            _ => None,
        }
    }

    /// Looks a field of an object up; `None` on any other kind of value.
    pub fn get<'a>(&'a self, key: &str) -> (r: Option<&'a Value>)
        ensures
            match r {
                Some(v) => self.spec_get(key@) == Some(*v),
                None => self.spec_get(key@) is None,
            },
    {
        match self {
            Value::Object(ms) => obj_get(ms, key),
            _ => None,
        }
    }

    /// The text of a string value, or `None` for any other kind.
    pub fn as_text(&self) -> (r: Option<&String>)
        ensures
            match r {
                Some(s) => self matches Value::Text(t) && t == s,
                None => !(self is Text),
            },
    {
        match self {
            Value::Text(s) => Some(s),
            _ => None,
        }
    }

    /// The flag of a boolean value, or `None` for any other kind.
    pub fn as_bool(&self) -> (r: Option<bool>)
        ensures
            r == if self is Bool {
                Some(self->Bool_0)
            } else {
                None::<bool>
            },
    {
        match self {
            Value::Bool(b) => Some(*b),
            _ => None,
        }
    }

    /// The numeric literal of a number value, or `None` for any other kind.
    pub fn as_num(&self) -> (r: Option<Number>)
        ensures
            r == if self is Num {
                Some(self->Num_0)
            } else {
                None::<Number>
            },
    {
        match self {
            Value::Num(n) => Some(*n),
            _ => None,
        }
    }

    /// The members of an object value, or `None` for any other kind.
    pub fn as_object(&self) -> (r: Option<&Vec<Member>>)
        ensures
            match r {
                Some(ms) => self matches Value::Object(m) && m == ms,
                None => !(self is Object),
            },
    {
        match self {
            Value::Object(ms) => Some(ms),
            _ => None,
        }
    }

    /// The elements of a sequence value, or `None` for any other kind.
    pub fn as_list(&self) -> (r: Option<&Vec<Value>>)
        ensures
            match r {
                Some(vs) => self matches Value::List(l) && l == vs,
                None => !(self is List),
            },
    {
        match self {
            Value::List(vs) => Some(vs),
            _ => None,
        }
    }

    /// True exactly for the null value.
    pub fn is_null(&self) -> (r: bool)
        ensures
            r == (self is Null),
    {
        match self {
            Value::Null => true,
            _ => false,
        }
    }
}

impl Clone for Value {
    /// The clone has the same mathematical shape as the original.
    fn clone(&self) -> (res: Self)
        ensures
            res.gv() == self.gv(),
        decreases self,
    {
        match self {
            Value::Null => Value::Null,
            Value::Bool(b) => Value::Bool(*b),
            Value::Num(n) => Value::Num(*n),
            Value::Text(s) => Value::Text(s.clone()),
            Value::List(vs) => {
                let mut out: Vec<Value> = Vec::new();
                let mut i: usize = 0;
                while i < vs.len()
                    invariant
                        i <= vs.len(),
                        out@.len() == i,
                        forall|j: int| 0 <= j < i ==> out@[j].gv() == vs@[j].gv(),
                        *self == Value::List(*vs),
                    decreases vs.len() - i,
                {
                    proof {
                        assert(decreases_to!(*self => self->List_0));
                        assert(self->List_0 == *vs);
                        vstd::std_specs::vec::axiom_vec_index_decreases(*vs, i as int);
                        assert(decreases_to!(*self => vs@[i as int]));
                    }
                    out.push(vs[i].clone());
                    i += 1;
                }
                proof {
                    lemma_gv_list(out@);
                    lemma_gv_list(vs@);
                    assert(gv_list(out@) =~= gv_list(vs@));
                }
                Value::List(out)
            },
            Value::Object(ms) => {
                let mut out: Vec<Member> = Vec::new();
                let mut i: usize = 0;
                while i < ms.len()
                    invariant
                        i <= ms.len(),
                        out@.len() == i,
                        forall|j: int| 0 <= j < i ==> out@[j].gv() == ms@[j].gv(),
                        *self == Value::Object(*ms),
                    decreases ms.len() - i,
                {
                    proof {
                        assert(decreases_to!(*self => self->Object_0));
                        assert(self->Object_0 == *ms);
                        vstd::std_specs::vec::axiom_vec_index_decreases(*ms, i as int);
                        assert(decreases_to!(ms@[i as int] => ms@[i as int].value));
                        assert(decreases_to!(*self => ms@[i as int].value));
                    }
                    let m = Member { name: ms[i].name.clone(), value: ms[i].value.clone() };
                    out.push(m);
                    i += 1;
                }
                proof {
                    lemma_gv_members(out@);
                    lemma_gv_members(ms@);
                    assert(gv_members(out@) =~= gv_members(ms@));
                }
                Value::Object(out)
            },
        }
    }
}

impl Clone for Member {
    /// The clone has the same mathematical shape as the original.
    fn clone(&self) -> (res: Self)
        ensures
            res.gv() == self.gv(),
    {
        Member { name: self.name.clone(), value: self.value.clone() }
    }
}

} // verus!
