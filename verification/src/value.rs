//! The tagged value model of the machine: primitive values plus shared
//! handles to heap-allocated strings and objects.

use vstd::prelude::*;
use std::sync::Arc;

verus! {

/// Shared-ownership handle to a heap allocation, carrying the stable
/// object id the heap assigned at allocation time.
#[derive(Debug)]
pub struct GcPtr<T> {
    pub inner: Arc<T>,
    pub object_id: usize,
}

/// The value held behind a shared handle.
pub open spec fn arc_val<T>(a: &Arc<T>) -> T {
    **a
}

/// Relies on Arc::clone: the returned handle shares the same allocation,
/// so it carries the same value.
#[verifier::external_body]
pub(crate) fn arc_clone<T>(a: &Arc<T>) -> (r: Arc<T>)
    ensures
        r == *a,
{
    Arc::clone(a)
}

impl<T> GcPtr<T> {
    /// The stable id the heap assigned to this allocation.
    pub fn object_id(&self) -> (r: usize)
        ensures
            r == self.object_id,
    {
        self.object_id
    }
}

impl<T> Clone for GcPtr<T> {
    fn clone(&self) -> (r: Self)
        ensures
            r == *self,
    {
        GcPtr { inner: arc_clone(&self.inner), object_id: self.object_id }
    }
}

impl GcPtr<String> {
    /// The heap string's characters.
    pub fn as_str(&self) -> (r: &str)
        ensures
            r@ == (*self.inner)@,
    {
        let s: &String = &*self.inner;
        s.as_str()
    }
}

/// A heap object: a mapping from field names to values, kept as an
/// association list in insertion order with pairwise-distinct names.
#[derive(Debug)]
pub struct Object {
    pub fields: Vec<(String, Value)>,
}

/// A machine value.
#[derive(Debug)]
pub enum Value {
    Integer(i64),
    Boolean(bool),
    String(String),
    GcString(GcPtr<String>),
    GcObject(GcPtr<Object>),
    Null,
}

/// The mathematical shape of a value: strings become character sequences,
/// heap handles become the pair of their object id and their payload.
pub ghost enum AbsValue {
    Int(i64),
    Bool(bool),
    Str(Seq<char>),
    GcStr(nat, Seq<char>),
    GcObj(nat, Seq<(Seq<char>, AbsValue)>),
    Null,
}

impl AbsValue {
    /// The stable textual type name of a value of this shape.
    pub open spec fn type_label_spec(self) -> Seq<char> {
        match self {
            AbsValue::Int(_) => "integer"@,
            AbsValue::Bool(_) => "boolean"@,
            AbsValue::Str(_) => "string"@,
            AbsValue::GcStr(_, _) => "gc_string"@,
            AbsValue::GcObj(_, _) => "gc_object"@,
            AbsValue::Null => "null"@,
        }
    }

    /// Truthiness: true booleans, non-zero integers, non-empty strings and
    /// every object are truthy; null is not.
    pub open spec fn truthy(self) -> bool {
        match self {
            AbsValue::Int(i) => i != 0,
            AbsValue::Bool(b) => b,
            AbsValue::Str(s) => s.len() != 0,
            AbsValue::GcStr(_, s) => s.len() != 0,
            AbsValue::GcObj(_, _) => true,
            AbsValue::Null => false,
        }
    }

    /// Whether this shape is a number the arithmetic opcodes accept.
    pub open spec fn is_numeric(self) -> bool {
        self is Int
    }
}

impl Value {
    /// The mathematical shape of this value.
    pub open spec fn abs(self) -> AbsValue
        decreases self,
    {
        match self {
            Value::Integer(i) => AbsValue::Int(i),
            Value::Boolean(b) => AbsValue::Bool(b),
            Value::String(s) => AbsValue::Str(s@),
            Value::GcString(p) => AbsValue::GcStr(p.object_id as nat, (*p.inner)@),
            Value::GcObject(p) => AbsValue::GcObj(
                p.object_id as nat,
                Self::abs_fields((*p.inner).fields@, 0),
            ),
            Value::Null => AbsValue::Null,
        }
    }

    /// The mathematical shape of the field list of an object, from index `i` on.
    pub open spec fn abs_fields(s: Seq<(String, Value)>, i: int) -> Seq<(Seq<char>, AbsValue)>
        decreases s, s.len() - i,
    {
        if 0 <= i < s.len() {
            seq![(s[i].0@, s[i].1.abs())] + Self::abs_fields(s, i + 1)
        } else {
            Seq::empty()
        }
    }

    /// The stable textual type name: one of "integer", "boolean", "string",
    /// "gc_string", "gc_object", "null".
    pub fn type_label(&self) -> (r: &'static str)
        ensures
            r@ == self.abs().type_label_spec(),
    {
        match self {
            Value::Integer(_) => "integer",
            Value::Boolean(_) => "boolean",
            Value::String(_) => "string",
            Value::GcString(_) => "gc_string",
            Value::GcObject(_) => "gc_object",
            Value::Null => "null",
        }
    }

    /// Truthiness of this value, as the conditional jumps and the logical
    /// opcodes see it.
    pub fn is_truthy(&self) -> (r: bool)
        ensures
            r == self.abs().truthy(),
    {
        match self {
            Value::Boolean(b) => *b,
            Value::Integer(i) => *i != 0,
            Value::String(s) => !s.as_str().is_empty(),
            Value::GcString(p) => {
                let s: &String = &*p.inner;
                !s.as_str().is_empty()
            },
            Value::GcObject(_) => true,
            Value::Null => false,
        }
    }
}

impl Clone for Value {
    fn clone(&self) -> (r: Self)
        ensures
            r == *self,
    {
        match self {
            Value::Integer(i) => Value::Integer(*i),
            Value::Boolean(b) => Value::Boolean(*b),
            Value::String(s) => Value::String(s.clone()),
            Value::GcString(p) => Value::GcString(p.clone()),
            Value::GcObject(p) => Value::GcObject(p.clone()),
            Value::Null => Value::Null,
        }
    }
}

/// Each entry of `abs_fields(s, i)` is the shape of the matching field.
pub proof fn lemma_abs_fields(s: Seq<(String, Value)>, i: int)
    requires
        0 <= i <= s.len(),
    ensures
        Value::abs_fields(s, i).len() == s.len() - i,
        forall|k: int|
            0 <= k < s.len() - i ==> #[trigger] Value::abs_fields(s, i)[k] == (
            s[i + k].0@,
            s[i + k].1.abs(),
            ),
    decreases s.len() - i,
{
    if i < s.len() {
        lemma_abs_fields(s, i + 1);
    }
}

/// First index of a field named `n` in an object's shape, or -1: the
/// entry an object's field lookup answers with.
pub open spec fn find_abs(fs: Seq<(Seq<char>, AbsValue)>, n: Seq<char>, i: int) -> int
    decreases fs.len() - i,
{
    if 0 <= i < fs.len() {
        if fs[i].0 == n {
            i
        } else {
            find_abs(fs, n, i + 1)
        }
    } else {
        -1
    }
}

/// `find_abs` returns either -1 (no entry from `i` on has the name) or
/// the first matching index at or after `i`.
pub proof fn lemma_find_abs(fs: Seq<(Seq<char>, AbsValue)>, n: Seq<char>, i: int)
    requires
        0 <= i <= fs.len(),
    ensures
        ({
            let r = find_abs(fs, n, i);
            &&& (r == -1 ==> forall|k: int| i <= k < fs.len() ==> (#[trigger] fs[k]).0 != n)
            &&& (r != -1 ==> i <= r < fs.len() && fs[r].0 == n && forall|k: int|
                i <= k < r ==> (#[trigger] fs[k]).0 != n)
        }),
    decreases fs.len() - i,
{
    if i < fs.len() && fs[i].0 != n {
        lemma_find_abs(fs, n, i + 1);
    }
}

/// Equivalence of two object shapes as field mappings: every name looks
/// up to a value in one exactly when it does in the other, and the two
/// values are again equivalent. Later entries with a repeated name are
/// shadowed, as in a mapping.
pub open spec fn fields_equiv(fs1: Seq<(Seq<char>, AbsValue)>, fs2: Seq<(Seq<char>, AbsValue)>) -> bool
    decreases fs1,
{
    forall|n: Seq<char>|
        #![trigger find_abs(fs1, n, 0), find_abs(fs2, n, 0)]
        {
            let i = find_abs(fs1, n, 0);
            let j = find_abs(fs2, n, 0);
            &&& (i >= 0) == (j >= 0)
            &&& (0 <= i < fs1.len() && 0 <= j < fs2.len() ==> abs_equiv(fs1[i].1, fs2[j].1))
        }
}

/// Equivalence of two value shapes: equality, except that object
/// payloads compare as field mappings rather than as field lists.
pub open spec fn abs_equiv(a: AbsValue, b: AbsValue) -> bool
    decreases a,
{
    match (a, b) {
        (AbsValue::GcObj(i, fs1), AbsValue::GcObj(j, fs2)) => i == j && fields_equiv(fs1, fs2),
        _ => a == b,
    }
}

/// Value equality with sum-type semantics: same tag and equal payload;
/// heap handles are equal when both their ids and their payloads agree,
/// an object's payload being its field mapping. This is exactly the
/// equivalence of the values' mathematical shapes.
pub fn value_eq(a: &Value, b: &Value) -> (r: bool)
    ensures
        r == abs_equiv(a.abs(), b.abs()),
    decreases a,
{
    match (a, b) {
        (Value::Integer(x), Value::Integer(y)) => *x == *y,
        (Value::Boolean(x), Value::Boolean(y)) => *x == *y,
        (Value::String(x), Value::String(y)) => *x == *y,
        (Value::GcString(p), Value::GcString(q)) => {
            let sp: &String = &*p.inner;
            let sq: &String = &*q.inner;
            p.object_id == q.object_id && *sp == *sq
        },
        (Value::GcObject(p), Value::GcObject(q)) => {
            if p.object_id != q.object_id {
                false
            } else {
                let fp: &Vec<(String, Value)> = &(*p.inner).fields;
                let fq: &Vec<(String, Value)> = &(*q.inner).fields;
                proof {
                    lemma_abs_fields(fp@, 0);
                    lemma_abs_fields(fq@, 0);
                }
                fields_eq(fp, fq)
            }
        },
        (Value::Null, Value::Null) => true,
        _ => {
            assert(!abs_equiv(a.abs(), b.abs()));
            false
        },
    }
}

/// The position of the first field named as `v[i]` is, searching from
/// the front; `i` itself when no earlier field shares the name.
fn first_index_of_name(v: &Vec<(String, Value)>, i: usize) -> (r: usize)
    requires
        i < v@.len(),
    ensures
        r == find_abs(Value::abs_fields(v@, 0), v@[i as int].0@, 0),
        r <= i,
{
    let mut k: usize = 0;
    while k < i
        invariant
            i < v@.len(),
            0 <= k <= i,
            forall|m: int| 0 <= m < k ==> (#[trigger] v@[m].0)@ != v@[i as int].0@,
        decreases i - k,
    {
        if v[k].0 == v[i].0 {
            proof {
            lemma_abs_fields(v@, 0);
            let apx = Value::abs_fields(v@, 0);
            assert(forall|m: int| 0 <= m < v@.len() ==> (#[trigger] apx[m]).0 == v@[m].0@);
                lemma_find_abs(apx, v@[i as int].0@, 0);
                assert(apx[k as int].0 == v@[i as int].0@);
                assert(forall|m: int| 0 <= m < k ==> (#[trigger] apx[m]).0 != v@[i as int].0@);
            }
            return k;
        }
        k += 1;
    }
    proof {
        lemma_abs_fields(v@, 0);
        let apx = Value::abs_fields(v@, 0);
        assert(forall|m: int| 0 <= m < v@.len() ==> (#[trigger] apx[m]).0 == v@[m].0@);
        lemma_find_abs(apx, v@[i as int].0@, 0);
        assert(apx[i as int].0 == v@[i as int].0@);
        assert(forall|m: int| 0 <= m < i ==> (#[trigger] apx[m]).0 != v@[i as int].0@);
    }
    i
}

/// The first field named `n` in `v`, as an index, or the vector's length
/// when no field has the name.
fn scan_for_name(v: &Vec<(String, Value)>, n: &String) -> (r: usize)
    ensures
        ({
            let f = find_abs(Value::abs_fields(v@, 0), n@, 0);
            if f >= 0 {
                r == f
            } else {
                r == v@.len()
            }
        }),
{
    let len = v.len();
    let mut k: usize = 0;
    while k < len
        invariant
            len == v@.len(),
            0 <= k <= len,
            forall|m: int| 0 <= m < k ==> (#[trigger] v@[m].0)@ != n@,
        decreases len - k,
    {
        if v[k].0 == *n {
            proof {
            lemma_abs_fields(v@, 0);
            let apx = Value::abs_fields(v@, 0);
            assert(forall|m: int| 0 <= m < v@.len() ==> (#[trigger] apx[m]).0 == v@[m].0@);
                lemma_find_abs(apx, n@, 0);
                assert(apx[k as int].0 == n@);
                assert(forall|m: int| 0 <= m < k ==> (#[trigger] apx[m]).0 != n@);
            }
            return k;
        }
        k += 1;
    }
    proof {
        lemma_abs_fields(v@, 0);
        let apx = Value::abs_fields(v@, 0);
        assert(forall|m: int| 0 <= m < v@.len() ==> (#[trigger] apx[m]).0 == v@[m].0@);
        lemma_find_abs(apx, n@, 0);
        assert(forall|m: int| 0 <= m < v@.len() ==> (#[trigger] apx[m]).0 != n@);
    }
    len
}

/// Equivalence of two field lists as mappings: each side's first entry
/// for a name must be matched by the other side's, with equivalent
/// values.
fn fields_eq(fp: &Vec<(String, Value)>, fq: &Vec<(String, Value)>) -> (r: bool)
    ensures
        r == fields_equiv(Value::abs_fields(fp@, 0), Value::abs_fields(fq@, 0)),
    decreases fp,
{
    proof {
        lemma_abs_fields(fp@, 0);
        lemma_abs_fields(fq@, 0);
    }
    let ghost ap = Value::abs_fields(fp@, 0);
    let ghost aq = Value::abs_fields(fq@, 0);
    let np = fp.len();
    let nq = fq.len();
    let mut i: usize = 0;
    while i < np
        invariant
            np == fp@.len(),
            nq == fq@.len(),
            ap == Value::abs_fields(fp@, 0),
            aq == Value::abs_fields(fq@, 0),
            0 <= i <= np,
            forall|k: int|
                0 <= k < i && find_abs(ap, (#[trigger] ap[k]).0, 0) == k ==> {
                    let j = find_abs(aq, ap[k].0, 0);
                    0 <= j < aq.len() && abs_equiv(ap[k].1, aq[j].1)
                },
        decreases np - i,
    {
        proof {
            lemma_abs_fields(fp@, 0);
            lemma_abs_fields(fq@, 0);
        }
        let first = first_index_of_name(fp, i);
        if first == i {
            let j = scan_for_name(fq, &fp[i].0);
            proof {
                lemma_find_abs(aq, fp@[i as int].0@, 0);
            }
            if j >= nq {
                proof {
                    assert(find_abs(ap, ap[i as int].0, 0) == i);
                    assert(find_abs(aq, ap[i as int].0, 0) == -1);
                    assert(!fields_equiv(ap, aq));
                }
                return false;
            }
            let ok = value_eq(&fp[i].1, &fq[j].1);
            if !ok {
                proof {
                    assert(find_abs(ap, ap[i as int].0, 0) == i);
                    assert(find_abs(aq, ap[i as int].0, 0) == j);
                    assert(!abs_equiv(ap[i as int].1, aq[j as int].1));
                    assert(!fields_equiv(ap, aq));
                }
                return false;
            }
        }
        i += 1;
    }
    let mut j: usize = 0;
    while j < nq
        invariant
            np == fp@.len(),
            nq == fq@.len(),
            ap == Value::abs_fields(fp@, 0),
            aq == Value::abs_fields(fq@, 0),
            0 <= j <= nq,
            forall|k: int|
                0 <= k < ap.len() && find_abs(ap, (#[trigger] ap[k]).0, 0) == k ==> {
                    let l = find_abs(aq, ap[k].0, 0);
                    0 <= l < aq.len() && abs_equiv(ap[k].1, aq[l].1)
                },
            forall|k: int|
                0 <= k < j && find_abs(aq, (#[trigger] aq[k]).0, 0) == k ==> find_abs(
                    ap,
                    aq[k].0,
                    0,
                ) >= 0,
        decreases nq - j,
    {
        proof {
            lemma_abs_fields(fp@, 0);
            lemma_abs_fields(fq@, 0);
        }
        let first = first_index_of_name(fq, j);
        if first == j {
            let k2 = scan_for_name(fp, &fq[j].0);
            proof {
                lemma_find_abs(ap, fq@[j as int].0@, 0);
            }
            if k2 >= np {
                proof {
                    assert(find_abs(aq, aq[j as int].0, 0) == j);
                    assert(find_abs(ap, aq[j as int].0, 0) == -1);
                    assert(!fields_equiv(ap, aq));
                }
                return false;
            }
        }
        j += 1;
    }
    proof {
        assert forall|n: Seq<char>|
            #![trigger find_abs(ap, n, 0), find_abs(aq, n, 0)]
            {
                let fi = find_abs(ap, n, 0);
                let fj = find_abs(aq, n, 0);
                ((fi >= 0) == (fj >= 0)) && (0 <= fi < ap.len() && 0 <= fj < aq.len()
                    ==> abs_equiv(ap[fi].1, aq[fj].1))
            } by {
            lemma_find_abs(ap, n, 0);
            lemma_find_abs(aq, n, 0);
            let fi = find_abs(ap, n, 0);
            let fj = find_abs(aq, n, 0);
            if fi >= 0 {
                assert(ap[fi].0 == n);
                assert(find_abs(ap, ap[fi].0, 0) == fi);
            }
            if fj >= 0 {
                assert(aq[fj].0 == n);
                assert(find_abs(aq, aq[fj].0, 0) == fj);
            }
        }
    }
    true
}

impl PartialEq for Value {
    fn eq(&self, other: &Self) -> (r: bool) {
        value_eq(self, other)
    }
}

impl vstd::std_specs::cmp::PartialEqSpecImpl for Value {
    open spec fn obeys_eq_spec() -> bool {
        true
    }

    open spec fn eq_spec(&self, other: &Self) -> bool {
        abs_equiv(self.abs(), other.abs())
    }
}

} // verus!
