//! A plain-value model of JSON documents, as scenario snapshots and
//! assertion values hold them.
//!
//! Numbers keep serde_json's three representations: non-negative integers,
//! negative integers and floats (as `f64` bit patterns). Values converted
//! from serde_json satisfy `json_well_formed`: their objects hold entries in
//! strictly ascending key order.

use vstd::prelude::*;
use vstd::std_specs::cmp::PartialEqSpecImpl;

use crate::text::{chars_of, str_eq};

verus! {

#[derive(Clone, Copy, Debug, PartialEq, Eq, Structural)]
pub enum JsonNumberV1 {
    PosInt(u64),
    NegInt(i64),
    Float(u64),
}

#[derive(Debug)]
pub enum JsonV1 {
    Null,
    Bool(bool),
    Number(JsonNumberV1),
    Text(String),
    Array(Vec<JsonV1>),
    Object(Vec<(String, JsonV1)>),
}

/// Two `f64` bit patterns compare equal: neither is NaN, and they are the
/// same pattern or both zeros.
pub open spec fn f64_bits_equal(a: u64, b: u64) -> bool {
    let nan_a = (a >> 52u64) & 0x7ffu64 == 0x7ffu64 && a & 0xf_ffff_ffff_ffffu64 != 0;
    let nan_b = (b >> 52u64) & 0x7ffu64 == 0x7ffu64 && b & 0xf_ffff_ffff_ffffu64 != 0;
    &&& !nan_a
    &&& !nan_b
    &&& (a == b || (a & 0x7fff_ffff_ffff_ffffu64 == 0 && b & 0x7fff_ffff_ffff_ffffu64 == 0))
}

/// Numbers are equal when they have the same representation and value.
pub open spec fn number_equal(a: JsonNumberV1, b: JsonNumberV1) -> bool {
    match (a, b) {
        (JsonNumberV1::PosInt(x), JsonNumberV1::PosInt(y)) => x == y,
        (JsonNumberV1::NegInt(x), JsonNumberV1::NegInt(y)) => x == y,
        (JsonNumberV1::Float(x), JsonNumberV1::Float(y)) => f64_bits_equal(x, y),
        _ => false,
    }
}

/// JSON equality: same kind, and equal scalars, texts, items or entries.
pub open spec fn json_equal(a: JsonV1, b: JsonV1) -> bool
    decreases a,
{
    match a {
        JsonV1::Null => b is Null,
        JsonV1::Bool(x) => b matches JsonV1::Bool(y) && x == y,
        JsonV1::Number(x) => b matches JsonV1::Number(y) && number_equal(x, y),
        JsonV1::Text(x) => b matches JsonV1::Text(y) && x@ == y@,
        JsonV1::Array(xs) => match b {
            JsonV1::Array(ys) => xs@.len() == ys@.len() && forall|i: int|
                0 <= i < xs@.len() ==> json_equal(#[trigger] xs@[i], ys@[i]),
            _ => false,
        },
        JsonV1::Object(xs) => match b {
            JsonV1::Object(ys) => xs@.len() == ys@.len() && forall|i: int|
                0 <= i < xs@.len() ==> (#[trigger] xs@[i]).0@ == ys@[i].0@ && json_equal(
                    xs@[i].1,
                    ys@[i].1,
                ),
            _ => false,
        },
    }
}

/// Arrays are equal only item by item: equal arrays have the same length and
/// equal items at every index, and two arrays of the same length that differ
/// at any one index, the last included, are unequal. Objects likewise
/// compare every entry's key and value.
pub proof fn equal_arrays_agree_at_every_index(xs: Vec<JsonV1>, ys: Vec<JsonV1>, i: int)
    ensures
        json_equal(JsonV1::Array(xs), JsonV1::Array(ys)) ==> xs@.len() == ys@.len(),
        json_equal(JsonV1::Array(xs), JsonV1::Array(ys)) && 0 <= i < xs@.len() ==> json_equal(
            xs@[i],
            ys@[i],
        ),
        xs@.len() == ys@.len() && 0 <= i < xs@.len() && !json_equal(xs@[i], ys@[i]) ==> !json_equal(
            JsonV1::Array(xs),
            JsonV1::Array(ys),
        ),
{
}

/// Equal objects have the same entries in the same order: equal keys and
/// equal values at every position.
pub proof fn equal_objects_agree_at_every_entry(
    xs: Vec<(String, JsonV1)>,
    ys: Vec<(String, JsonV1)>,
    i: int,
)
    ensures
        json_equal(JsonV1::Object(xs), JsonV1::Object(ys)) ==> xs@.len() == ys@.len(),
        json_equal(JsonV1::Object(xs), JsonV1::Object(ys)) && 0 <= i < xs@.len() ==> xs@[i].0@
            == ys@[i].0@ && json_equal(xs@[i].1, ys@[i].1),
        xs@.len() == ys@.len() && 0 <= i < xs@.len() && (xs@[i].0@ != ys@[i].0@ || !json_equal(
            xs@[i].1,
            ys@[i].1,
        )) ==> !json_equal(JsonV1::Object(xs), JsonV1::Object(ys)),
{
}

/// Values of different kinds are never equal, and scalars are equal exactly
/// when their contents are.
pub proof fn scalar_equality(a: JsonV1, b: JsonV1)
    ensures
        (a is Null) != (b is Null) ==> !json_equal(a, b),
        a matches JsonV1::Bool(x) ==> (json_equal(a, b) <==> (b matches JsonV1::Bool(y) && x == y)),
        a matches JsonV1::Text(x) ==> (json_equal(a, b) <==> (b matches JsonV1::Text(y) && x@ == y@)),
        a matches JsonV1::Number(JsonNumberV1::PosInt(x)) ==> (json_equal(a, b) <==> b == JsonV1::Number(
            JsonNumberV1::PosInt(x),
        )),
        a matches JsonV1::Number(JsonNumberV1::NegInt(x)) ==> (json_equal(a, b) <==> b == JsonV1::Number(
            JsonNumberV1::NegInt(x),
        )),
        a is Array ==> (json_equal(a, b) ==> b is Array),
        a is Object ==> (json_equal(a, b) ==> b is Object),
{
}

fn f64_equal(a: u64, b: u64) -> (r: bool)
    ensures
        r == f64_bits_equal(a, b),
{
    let nan_a = (a >> 52u64) & 0x7ffu64 == 0x7ffu64 && a & 0xf_ffff_ffff_ffffu64 != 0;
    let nan_b = (b >> 52u64) & 0x7ffu64 == 0x7ffu64 && b & 0xf_ffff_ffff_ffffu64 != 0;
    !nan_a && !nan_b && (a == b || (a & 0x7fff_ffff_ffff_ffffu64 == 0 && b
        & 0x7fff_ffff_ffff_ffffu64 == 0))
}

fn numbers_equal(a: JsonNumberV1, b: JsonNumberV1) -> (r: bool)
    ensures
        r == number_equal(a, b),
{
    match (a, b) {
        (JsonNumberV1::PosInt(x), JsonNumberV1::PosInt(y)) => x == y,
        (JsonNumberV1::NegInt(x), JsonNumberV1::NegInt(y)) => x == y,
        (JsonNumberV1::Float(x), JsonNumberV1::Float(y)) => f64_equal(x, y),
        _ => false,
    }
}

/// Whether two JSON values are equal.
pub fn json_eq(a: &JsonV1, b: &JsonV1) -> (r: bool)
    ensures
        r == json_equal(*a, *b),
    decreases a,
{
    match a {
        JsonV1::Null => matches!(b, JsonV1::Null),
        JsonV1::Bool(x) => match b {
            JsonV1::Bool(y) => *x == *y,
            _ => false,
        },
        JsonV1::Number(x) => match b {
            JsonV1::Number(y) => numbers_equal(*x, *y),
            _ => false,
        },
        JsonV1::Text(x) => match b {
            JsonV1::Text(y) => str_eq(x.as_str(), y.as_str()),
            _ => false,
        },
        JsonV1::Array(xs) => match b {
            JsonV1::Array(ys) => {
                if xs.len() != ys.len() {
                    return false;
                }
                let n = xs.len();
                for i in 0..n
                    invariant
                        n == xs@.len(),
                        n == ys@.len(),
                        *a == JsonV1::Array(*xs),
                        *b == JsonV1::Array(*ys),
                        forall|j: int| 0 <= j < i ==> json_equal(#[trigger] xs@[j], ys@[j]),
                {
                    proof {
                        assert(decreases_to!(*a => (*a)->Array_0));
                        assert((*a)->Array_0 == *xs);
                        assert(decreases_to!(*xs => xs@));
                        assert(decreases_to!(xs@ => xs@[i as int]));
                        assert(decreases_to!(*a => xs@[i as int]));
                    }
                    if !json_eq(&xs[i], &ys[i]) {
                        assert(!json_equal(xs@[i as int], ys@[i as int]));
                        return false;
                    }
                }
                true
            },
            _ => false,
        },
        JsonV1::Object(xs) => match b {
            JsonV1::Object(ys) => {
                if xs.len() != ys.len() {
                    return false;
                }
                let n = xs.len();
                for i in 0..n
                    invariant
                        n == xs@.len(),
                        n == ys@.len(),
                        *a == JsonV1::Object(*xs),
                        *b == JsonV1::Object(*ys),
                        forall|j: int|
                            0 <= j < i ==> (#[trigger] xs@[j]).0@ == ys@[j].0@ && json_equal(
                                xs@[j].1,
                                ys@[j].1,
                            ),
                {
                    if !str_eq(xs[i].0.as_str(), ys[i].0.as_str()) {
                        assert(xs@[i as int].0@ != ys@[i as int].0@);
                        return false;
                    }
                    proof {
                        assert(decreases_to!(*a => (*a)->Object_0));
                        assert((*a)->Object_0 == *xs);
                        assert(decreases_to!(*xs => xs@));
                        assert(decreases_to!(xs@ => xs@[i as int]));
                        assert(decreases_to!(xs@[i as int] => xs@[i as int].1));
                        assert(decreases_to!(*a => xs@[i as int].1));
                    }
                    if !json_eq(&xs[i].1, &ys[i].1) {
                        assert(!json_equal(xs@[i as int].1, ys@[i as int].1));
                        return false;
                    }
                }
                true
            },
            _ => false,
        },
    }
}

impl PartialEq for JsonV1 {
    fn eq(&self, other: &JsonV1) -> (r: bool) {
        json_eq(self, other)
    }
}

impl PartialEqSpecImpl for JsonV1 {
    open spec fn obeys_eq_spec() -> bool {
        true
    }

    open spec fn eq_spec(&self, other: &JsonV1) -> bool {
        json_equal(*self, *other)
    }
}

// ---- paths -------------------------------------------------------------------

/// The index of the first `.` in `p`, or `p.len()` when it has none.
pub open spec fn first_dot(p: Seq<char>) -> int
    decreases p.len(),
{
    if p.len() == 0 {
        0
    } else if p[0] == '.' {
        0
    } else {
        1 + first_dot(p.drop_first())
    }
}

/// The value of a sequence of decimal digits.
pub open spec fn decimal_value(d: Seq<char>) -> int
    decreases d.len(),
{
    if d.len() == 0 {
        0
    } else {
        decimal_value(d.drop_last()) * 10 + (d.last() as int - '0' as int)
    }
}

pub open spec fn all_digits(d: Seq<char>) -> bool {
    forall|i: int| 0 <= i < d.len() ==> '0' <= #[trigger] d[i] <= '9'
}

/// The array index a path segment names, read as `usize` text is read: an
/// optional `+`, then at least one decimal digit, with a value that fits.
pub open spec fn parse_index(seg: Seq<char>) -> Option<int> {
    let d = if seg.len() > 0 && seg[0] == '+' {
        seg.drop_first()
    } else {
        seg
    };
    if d.len() > 0 && all_digits(d) && decimal_value(d) <= usize::MAX {
        Some(decimal_value(d))
    } else {
        None
    }
}

/// The value of the first entry whose key is `key`.
pub open spec fn object_get(entries: Seq<(String, JsonV1)>, key: Seq<char>) -> Option<JsonV1>
    decreases entries.len(),
{
    if entries.len() == 0 {
        None
    } else if entries[0].0@ == key {
        Some(entries[0].1)
    } else {
        object_get(entries.drop_first(), key)
    }
}

/// One step along a path: an object's member named `seg`, or the array
/// item whose index `seg` spells.
pub open spec fn path_step(v: JsonV1, seg: Seq<char>) -> Option<JsonV1> {
    match v {
        JsonV1::Object(entries) => object_get(entries@, seg),
        JsonV1::Array(items) => match parse_index(seg) {
            Some(i) => if i < items@.len() {
                Some(items@[i])
            } else {
                None
            },
            None => None,
        },
        _ => None,
    }
}

proof fn lemma_first_dot(p: Seq<char>)
    ensures
        0 <= first_dot(p) <= p.len(),
        forall|k: int| 0 <= k < first_dot(p) ==> p[k] != '.',
        first_dot(p) < p.len() ==> p[first_dot(p)] == '.',
    decreases p.len(),
{
    if p.len() > 0 && p[0] != '.' {
        lemma_first_dot(p.drop_first());
        assert forall|k: int| 0 <= k < first_dot(p) implies p[k] != '.' by {
            if k > 0 {
                assert(p[k] == p.drop_first()[k - 1]);
            }
        }
    }
}

/// The value a dot-separated path leads to from `v`, one segment at a time.
pub open spec fn lookup_path(v: JsonV1, p: Seq<char>) -> Option<JsonV1>
    decreases p.len(),
{
    let i = first_dot(p);
    let seg = p.subrange(0, i);
    match path_step(v, seg) {
        None => None,
        Some(child) => if i >= p.len() || i < 0 {
            Some(child)
        } else {
            lookup_path(child, p.subrange(i + 1, p.len() as int))
        },
    }
}

proof fn lemma_first_dot_unique(p: Seq<char>, i: int)
    requires
        0 <= i <= p.len(),
        forall|k: int| 0 <= k < i ==> p[k] != '.',
        i < p.len() ==> p[i] == '.',
    ensures
        first_dot(p) == i,
{
    lemma_first_dot(p);
    if first_dot(p) < i {
        assert(p[first_dot(p)] == '.');
    }
    if first_dot(p) > i {
        assert(p[i] != '.');
    }
}

fn find_dot(chars: &Vec<char>, start: usize) -> (end: usize)
    requires
        start <= chars@.len(),
    ensures
        start <= end <= chars@.len(),
        forall|k: int| start <= k < end ==> chars@[k] != '.',
        end < chars@.len() ==> chars@[end as int] == '.',
{
    let mut end = start;
    while end < chars.len() && chars[end] != '.'
        invariant
            start <= end <= chars@.len(),
            forall|k: int| start <= k < end ==> chars@[k] != '.',
        decreases chars@.len() - end,
    {
        end = end + 1;
    }
    end
}

fn segment_is_key(key: &String, chars: &Vec<char>, start: usize, end: usize) -> (r: bool)
    requires
        start <= end <= chars@.len(),
    ensures
        r == (key@ == chars@.subrange(start as int, end as int)),
{
    let k = chars_of(key.as_str());
    if k.len() != end - start {
        return false;
    }
    let n = k.len();
    for i in 0..n
        invariant
            k@ == key@,
            n == k@.len(),
            n == end - start,
            start <= end <= chars@.len(),
            forall|j: int| 0 <= j < i ==> k@[j] == chars@[start + j],
    {
        if k[i] != chars[start + i] {
            assert(key@[i as int] != chars@.subrange(start as int, end as int)[i as int]);
            return false;
        }
    }
    assert(key@ =~= chars@.subrange(start as int, end as int));
    true
}

fn member<'a>(entries: &'a Vec<(String, JsonV1)>, chars: &Vec<char>, start: usize, end: usize) -> (r:
    Option<&'a JsonV1>)
    requires
        start <= end <= chars@.len(),
    ensures
        match r {
            Some(x) => object_get(entries@, chars@.subrange(start as int, end as int)) == Some(*x),
            None => object_get(entries@, chars@.subrange(start as int, end as int)) is None,
        },
{
    let ghost key = chars@.subrange(start as int, end as int);
    let n = entries.len();
    assert(entries@.skip(0) =~= entries@);
    for i in 0..n
        invariant
            n == entries@.len(),
            start <= end <= chars@.len(),
            key == chars@.subrange(start as int, end as int),
            object_get(entries@, key) == object_get(entries@.skip(i as int), key),
    {
        assert(entries@.skip(i as int)[0] == entries@[i as int]);
        if segment_is_key(&entries[i].0, chars, start, end) {
            return Some(&entries[i].1);
        }
        assert(entries@.skip(i as int).drop_first() =~= entries@.skip(i + 1));
    }
    assert(entries@.skip(n as int) =~= Seq::<(String, JsonV1)>::empty());
    None
}

proof fn lemma_decimal_value_push(d: Seq<char>, c: char)
    ensures
        decimal_value(d.push(c)) == decimal_value(d) * 10 + (c as int - '0' as int),
{
    assert(d.push(c).drop_last() =~= d);
}

proof fn lemma_decimal_value_nonneg(d: Seq<char>)
    requires
        all_digits(d),
    ensures
        decimal_value(d) >= 0,
    decreases d.len(),
{
    if d.len() > 0 {
        assert(all_digits(d.drop_last()));
        lemma_decimal_value_nonneg(d.drop_last());
    }
}

proof fn lemma_decimal_value_prefix_bound(d: Seq<char>, i: int)
    requires
        all_digits(d),
        0 <= i <= d.len(),
    ensures
        decimal_value(d.subrange(0, i)) <= decimal_value(d),
    decreases d.len() - i,
{
    if i < d.len() {
        lemma_decimal_value_prefix_bound(d, i + 1);
        assert(d.subrange(0, i + 1).drop_last() =~= d.subrange(0, i));
        assert(all_digits(d.subrange(0, i)));
        lemma_decimal_value_nonneg(d.subrange(0, i));
    } else {
        assert(d.subrange(0, i) =~= d);
    }
}

fn segment_index(chars: &Vec<char>, start: usize, end: usize) -> (r: Option<usize>)
    requires
        start <= end <= chars@.len(),
    ensures
        match r {
            Some(u) => parse_index(chars@.subrange(start as int, end as int)) == Some(u as int),
            None => parse_index(chars@.subrange(start as int, end as int)) is None,
        },
{
    let ghost seg = chars@.subrange(start as int, end as int);
    let mut first = start;
    if start < end && chars[start] == '+' {
        first = start + 1;
    }
    let ghost d = chars@.subrange(first as int, end as int);
    assert(d =~= (if seg.len() > 0 && seg[0] == '+' {
        seg.drop_first()
    } else {
        seg
    }));
    if first == end {
        return None;
    }
    if !all_digits_from(chars, first, end) {
        return None;
    }
    let mut value: usize = 0;
    let mut i = first;
    while i < end
        invariant
            first <= i <= end <= chars@.len(),
            seg == chars@.subrange(start as int, end as int),
            d == chars@.subrange(first as int, end as int),
            all_digits(d),
            d.len() > 0,
            parse_index(seg) == (if decimal_value(d) <= usize::MAX {
                Some(decimal_value(d))
            } else {
                None
            }),
            value as int == decimal_value(chars@.subrange(first as int, i as int)),
        decreases end - i,
    {
        let c = chars[i];
        assert(chars@.subrange(first as int, i + 1) =~= chars@.subrange(first as int, i as int).push(c));
        assert(d[i - first] == c);
        proof {
            lemma_decimal_value_push(chars@.subrange(first as int, i as int), c);
        }
        let digit = (c as u32 - '0' as u32) as usize;
        let next = match value.checked_mul(10) {
            Some(scaled) => scaled.checked_add(digit),
            None => None,
        };
        match next {
            Some(v) => {
                value = v;
            },
            None => {
                proof {
                    assert('0' <= d[i - first] <= '9');
                    assert(digit == c as int - '0' as int);
                    assert(value * 10 + digit > usize::MAX);
                    assert(decimal_value(chars@.subrange(first as int, i + 1)) > usize::MAX);
                    lemma_decimal_value_prefix_bound(d, i + 1 - first);
                    assert(d.subrange(0, i + 1 - first) =~= chars@.subrange(first as int, i + 1));
                }
                return None;
            },
        }
        i = i + 1;
    }
    assert(chars@.subrange(first as int, end as int) =~= d);
    Some(value)
}

fn all_digits_from(chars: &Vec<char>, from: usize, end: usize) -> (r: bool)
    requires
        from <= end <= chars@.len(),
    ensures
        r == all_digits(chars@.subrange(from as int, end as int)),
{
    let mut i = from;
    while i < end
        invariant
            from <= i <= end <= chars@.len(),
            all_digits(chars@.subrange(from as int, i as int)),
        decreases end - i,
    {
        if chars[i] < '0' || chars[i] > '9' {
            assert(chars@.subrange(from as int, end as int)[i - from] == chars@[i as int]);
            return false;
        }
        assert(chars@.subrange(from as int, i + 1) =~= chars@.subrange(from as int, i as int).push(chars@[i as int]));
        i = i + 1;
    }
    true
}

fn step<'a>(v: &'a JsonV1, chars: &Vec<char>, start: usize, end: usize) -> (r: Option<&'a JsonV1>)
    requires
        start <= end <= chars@.len(),
    ensures
        match r {
            Some(x) => path_step(*v, chars@.subrange(start as int, end as int)) == Some(*x),
            None => path_step(*v, chars@.subrange(start as int, end as int)) is None,
        },
{
    match v {
        JsonV1::Object(entries) => {
            let found = member(entries, chars, start, end);
            found
        },
        JsonV1::Array(items) => match segment_index(chars, start, end) {
            Some(i) => {
                if i < items.len() {
                    Some(&items[i])
                } else {
                    None
                }
            },
            None => None,
        },
        _ => None,
    }
}

/// The value `path` leads to from `root`: its `.`-separated segments name
/// object members or array indices in turn.
pub fn value_at_path<'a>(root: &'a JsonV1, path: &str) -> (r: Option<&'a JsonV1>)
    ensures
        match r {
            Some(x) => lookup_path(*root, path@) == Some(*x),
            None => lookup_path(*root, path@) is None,
        },
{
    let chars = chars_of(path);
    let n = chars.len();
    let mut cur = root;
    let mut start: usize = 0;
    assert(chars@.subrange(0, n as int) =~= chars@);
    loop
        invariant
            chars@ == path@,
            n == chars@.len(),
            start <= n,
            lookup_path(*root, path@) == lookup_path(*cur, chars@.subrange(start as int, n as int)),
        decreases n - start,
    {
        let end = find_dot(&chars, start);
        let ghost rest = chars@.subrange(start as int, n as int);
        proof {
            assert forall|k: int| 0 <= k < end - start implies rest[k] != '.' by {
                assert(rest[k] == chars@[start + k]);
            }
            if end < n {
                assert(rest[end - start] == chars@[end as int]);
            }
            lemma_first_dot_unique(rest, end - start);
            assert(rest.subrange(0, end - start) =~= chars@.subrange(start as int, end as int));
            if end < n {
                assert(rest.subrange(end - start + 1, rest.len() as int) =~= chars@.subrange(
                    end + 1,
                    n as int,
                ));
            }
        }
        match step(cur, &chars, start, end) {
            None => {
                return None;
            },
            Some(child) => {
                if end == n {
                    return Some(child);
                }
                cur = child;
                start = end + 1;
            },
        }
    }
}

/// The member `key` of an object; nothing for other values.
pub open spec fn json_field(v: JsonV1, key: Seq<char>) -> Option<JsonV1> {
    match v {
        JsonV1::Object(entries) => object_get(entries@, key),
        _ => None,
    }
}

/// The member `key` of an object, if `v` is an object that has it.
pub fn field<'a>(v: &'a JsonV1, key: &str) -> (r: Option<&'a JsonV1>)
    ensures
        match r {
            Some(x) => json_field(*v, key@) == Some(*x),
            None => json_field(*v, key@) is None,
        },
{
    match v {
        JsonV1::Object(entries) => {
            let chars = chars_of(key);
            assert(chars@.subrange(0, chars@.len() as int) =~= key@);
            member(entries, &chars, 0, chars.len())
        },
        _ => None,
    }
}

// ---- well-formed objects -------------------------------------------------------

/// `a` sorts strictly before `b`, comparing characters by code point.
pub open spec fn text_less(a: Seq<char>, b: Seq<char>) -> bool
    decreases a.len(),
{
    if a.len() == 0 {
        b.len() > 0
    } else if b.len() == 0 {
        false
    } else if a[0] != b[0] {
        (a[0] as u32) < (b[0] as u32)
    } else {
        text_less(a.drop_first(), b.drop_first())
    }
}

/// Object keys strictly ascend, as in serde_json's map.
pub open spec fn keys_ascending(entries: Seq<(String, JsonV1)>) -> bool {
    forall|i: int, j: int|
        0 <= i < j < entries.len() ==> text_less(#[trigger] entries[i].0@, #[trigger] entries[j].0@)
}

/// A JSON value whose objects, at every depth, hold their entries in
/// strictly ascending key order. serde_json's map keeps this order and
/// compares two maps entry by entry in it, as `json_equal` does; on such
/// objects `object_get` finds the one entry of a key.
pub open spec fn json_well_formed(v: JsonV1) -> bool
    decreases v,
{
    match v {
        JsonV1::Array(items) => forall|i: int|
            0 <= i < items@.len() ==> json_well_formed(#[trigger] items@[i]),
        JsonV1::Object(entries) => keys_ascending(entries@) && forall|i: int|
            0 <= i < entries@.len() ==> json_well_formed(#[trigger] entries@[i].1),
        _ => true,
    }
}

proof fn lemma_text_less_irreflexive(a: Seq<char>)
    ensures
        !text_less(a, a),
    decreases a.len(),
{
    if a.len() > 0 {
        lemma_text_less_irreflexive(a.drop_first());
    }
}

/// In a well-formed object no key occurs twice, so a member is found by its
/// key whatever its position.
pub proof fn well_formed_objects_have_unique_keys(entries: Seq<(String, JsonV1)>, i: int)
    requires
        keys_ascending(entries),
        0 <= i < entries.len(),
    ensures
        forall|j: int| 0 <= j < entries.len() && j != i ==> #[trigger] entries[j].0@ != entries[i].0@,
        object_get(entries, entries[i].0@) == Some(entries[i].1),
    decreases entries.len(),
{
    lemma_text_less_irreflexive(entries[i].0@);
    assert forall|j: int| 0 <= j < entries.len() && j != i implies #[trigger] entries[j].0@
        != entries[i].0@ by {
        if j < i {
            assert(text_less(entries[j].0@, entries[i].0@));
        } else {
            assert(text_less(entries[i].0@, entries[j].0@));
        }
    }
    if i > 0 {
        let rest = entries.drop_first();
        assert(keys_ascending(rest)) by {
            assert forall|a: int, b: int| 0 <= a < b < rest.len() implies text_less(
                #[trigger] rest[a].0@,
                #[trigger] rest[b].0@,
            ) by {
                assert(rest[a] == entries[a + 1] && rest[b] == entries[b + 1]);
            }
        }
        well_formed_objects_have_unique_keys(rest, i - 1);
        assert(rest[i - 1] == entries[i]);
        assert(entries[0].0@ != entries[i].0@);
    }
}

} // verus!
