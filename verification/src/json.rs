//! A model of JSON documents and the selector algebra over them.
//!
//! `JsonValue` is the executable representation; its view is the purely
//! mathematical `JsonVal`, over which every contract in the crate speaks.
//! Object members are kept as an ordered list of key/value pairs; member
//! lookup takes the first pair with the wanted key, and member insertion
//! replaces the value of an existing key in place.

use vstd::prelude::*;
use vstd::string::*;

verus! {

/// Mathematical shape of a JSON document: the view of `JsonValue`.
///
/// Numbers are carried as their source text, so that no precision is lost
/// and no floating point enters the model.
#[verifier::ext_equal]
pub enum JsonVal {
    Null,
    Bool(bool),
    Num(Seq<char>),
    Str(Seq<char>),
    Arr(Seq<JsonVal>),
    Obj(Seq<(Seq<char>, JsonVal)>),
}

/// An executable JSON document.
#[derive(Debug, PartialEq, Eq)]
pub enum JsonValue {
    Null,
    Bool(bool),
    Num(String),
    Str(String),
    Arr(Vec<JsonValue>),
    Obj(Vec<(String, JsonValue)>),
}

impl JsonValue {
    /// The mathematical value this document denotes.
    pub open spec fn deep(self) -> JsonVal
        decreases self,
    {
        match self {
            JsonValue::Null => JsonVal::Null,
            JsonValue::Bool(b) => JsonVal::Bool(b),
            JsonValue::Num(s) => JsonVal::Num(s@),
            JsonValue::Str(s) => JsonVal::Str(s@),
            JsonValue::Arr(items) => JsonVal::Arr(
                Seq::new(items@.len(), |i: int| if 0 <= i < items@.len() {
                    items@[i].deep()
                } else {
                    JsonVal::Null
                }),
            ),
            JsonValue::Obj(members) => JsonVal::Obj(
                Seq::new(members@.len(), |i: int| if 0 <= i < members@.len() {
                    (members@[i].0@, members@[i].1.deep())
                } else {
                    (Seq::empty(), JsonVal::Null)
                }),
            ),
        }
    }
}

impl View for JsonValue {
    type V = JsonVal;

    open spec fn view(&self) -> JsonVal {
        self.deep()
    }
}

impl JsonValue {
    /// A structurally identical copy of this document.
    #[verifier::loop_isolation(false)]
    pub fn deep_clone(&self) -> (r: JsonValue)
        ensures
            r@ == self@,
        decreases *self,
    {
        match self {
            JsonValue::Null => JsonValue::Null,
            JsonValue::Bool(b) => JsonValue::Bool(*b),
            JsonValue::Num(s) => JsonValue::Num(s.clone()),
            JsonValue::Str(s) => JsonValue::Str(s.clone()),
            JsonValue::Arr(items) => {
                let mut out: Vec<JsonValue> = Vec::new();
                let mut i: usize = 0;
                while i < items.len()
                    invariant
                        i <= items.len(),
                        out.len() == i,
                        forall|j: int| 0 <= j < i ==> (#[trigger] out@[j])@ == items@[j]@,
                    decreases items.len() - i,
                {
                    let c = items[i].deep_clone();
                    out.push(c);
                    i = i + 1;
                }
                let r = JsonValue::Arr(out);
                proof {
                    assert(*self == JsonValue::Arr(*items));
                    let s1 = (r@)->Arr_0;
                    let s2 = (self@)->Arr_0;
                    assert(s1.len() == out@.len());
                    assert(s2.len() == items@.len());
                    assert(forall|j: int| 0 <= j < s1.len() ==> s1[j] == s2[j]);
                    assert(s1 =~= s2);
                    assert(r@ =~= self@);
                }
                r
            },
            JsonValue::Obj(members) => {
                let mut out: Vec<(String, JsonValue)> = Vec::new();
                let mut i: usize = 0;
                while i < members.len()
                    invariant
                        i <= members.len(),
                        out.len() == i,
                        forall|j: int| 0 <= j < i ==> (#[trigger] out@[j]).0@ == members@[j].0@
                            && out@[j].1@ == members@[j].1@,
                    decreases members.len() - i,
                {
                    let k = members[i].0.clone();
                    let v = members[i].1.deep_clone();
                    out.push((k, v));
                    i = i + 1;
                }
                let r = JsonValue::Obj(out);
                proof {
                    assert(*self == JsonValue::Obj(*members));
                    let s1 = (r@)->Obj_0;
                    let s2 = (self@)->Obj_0;
                    assert(s1.len() == out@.len());
                    assert(s2.len() == members@.len());
                    assert(forall|j: int| 0 <= j < s1.len() ==> s1[j] == s2[j]);
                    assert(s1 =~= s2);
                    assert(r@ =~= self@);
                }
                r
            },
        }
    }

    /// The value stored under `key`, when this document is an object that
    /// has such a member; nothing otherwise.
    pub fn get<'a>(&'a self, key: &str) -> (r: Option<&'a JsonValue>)
        ensures
            match self@ {
                JsonVal::Obj(ms) => match r {
                    Some(v) => obj_lookup(ms, key@) == Some(v@),
                    None => obj_lookup(ms, key@) is None,
                },
                _ => r is None,
            },
    {
        match self {
            JsonValue::Obj(members) => {
                let ghost ms = (self@)->Obj_0;
                let k = String::from_str(key);
                let mut i: usize = 0;
                while i < members.len()
                    invariant
                        i <= members.len(),
                        obj_lookup(ms, key@) == match self@ {
                            JsonVal::Obj(m) => obj_lookup(m, key@),
                            _ => None,
                        },
                        ms.len() == members@.len(),
                        forall|j: int| 0 <= j < ms.len() ==> #[trigger] ms[j]
                            == (members@[j].0@, members@[j].1@),
                        k@ == key@,
                        forall|j: int| 0 <= j < i ==> (#[trigger] ms[j]).0 != key@,
                    decreases members.len() - i,
                {
                    if members[i].0 == k {
                        proof {
                            lemma_obj_lookup_prefix(ms, key@, i as int);
                            assert(ms.skip(i as int)[0] == ms[i as int]);
                        }
                        return Some(&members[i].1);
                    }
                    i = i + 1;
                }
                proof {
                    lemma_obj_lookup_prefix(ms, key@, ms.len() as int);
                }
                None
            },
            _ => None,
        }
    }
}

/// When the first `i` member keys all differ from `key`, looking `key` up
/// in the whole member list and in the list without those members is the
/// same.
proof fn lemma_obj_lookup_prefix(ms: Seq<(Seq<char>, JsonVal)>, key: Seq<char>, i: int)
    requires
        0 <= i <= ms.len(),
        forall|j: int| 0 <= j < i ==> (#[trigger] ms[j]).0 != key,
    ensures
        obj_lookup(ms, key) == obj_lookup(ms.skip(i), key),
    decreases i,
{
    if i == 0 {
        assert(ms.skip(0) =~= ms);
    } else {
        lemma_obj_lookup_prefix(ms, key, i - 1);
        assert(ms.skip(i - 1).len() > 0);
        assert(ms.skip(i - 1)[0] == ms[i - 1]);
        assert(ms.skip(i - 1).skip(1) =~= ms.skip(i));
        assert(obj_lookup(ms.skip(i - 1), key) == obj_lookup(ms.skip(i - 1).skip(1), key));
    }
}

/// The value of the first member of `members` whose key is `key`.
pub open spec fn obj_lookup(members: Seq<(Seq<char>, JsonVal)>, key: Seq<char>) -> Option<JsonVal>
    decreases members.len(),
{
    if members.len() == 0 {
        None
    } else if members[0].0 == key {
        Some(members[0].1)
    } else {
        obj_lookup(members.skip(1), key)
    }
}

/// `members` with `val` stored under `key`: the first member with that key
/// is replaced in place, or a new member is appended at the end.
pub open spec fn obj_insert(
    members: Seq<(Seq<char>, JsonVal)>,
    key: Seq<char>,
    val: JsonVal,
) -> Seq<(Seq<char>, JsonVal)>
    decreases members.len(),
{
    if members.len() == 0 {
        seq![(key, val)]
    } else if members[0].0 == key {
        seq![(key, val)] + members.skip(1)
    } else {
        seq![members[0]] + obj_insert(members.skip(1), key, val)
    }
}

/// `s` cut at every occurrence of `sep`; the separators themselves are
/// dropped. The result always has at least one (possibly empty) piece.
pub open spec fn split_on(s: Seq<char>, sep: char) -> Seq<Seq<char>>
    decreases s.len(),
{
    if s.len() == 0 {
        seq![Seq::<char>::empty()]
    } else if s.last() == sep {
        split_on(s.drop_last(), sep).push(Seq::<char>::empty())
    } else {
        let rest = split_on(s.drop_last(), sep);
        rest.update(rest.len() - 1, rest.last().push(s.last()))
    }
}

/// A split has at least one piece.
proof fn lemma_split_len(s: Seq<char>, sep: char)
    ensures
        split_on(s, sep).len() >= 1,
    decreases s.len(),
{
    if s.len() > 0 {
        lemma_split_len(s.drop_last(), sep);
    }
}

/// Every dot of a selector replaced by an underscore: the flattened output
/// key of a dotted selector.
pub open spec fn flat_key(sel: Seq<char>) -> Seq<char> {
    sel.map_values(|c: char| if c == '.' { '_' } else { c })
}

/// Whether every character of `s` is a decimal digit.
pub open spec fn all_digits(s: Seq<char>) -> bool {
    forall|i: int| 0 <= i < s.len() ==> '0' <= #[trigger] s[i] <= '9'
}

/// The number denoted by a sequence of decimal digits.
pub open spec fn dec_value(s: Seq<char>) -> nat
    decreases s.len(),
{
    if s.len() == 0 {
        0
    } else {
        (dec_value(s.drop_last()) * 10 + (s.last() as int - '0' as int)) as nat
    }
}

/// A path segment with its optional leading `+` sign removed.
pub open spec fn index_digits(seg: Seq<char>) -> Seq<char> {
    if seg.len() > 0 && seg[0] == '+' {
        seg.skip(1)
    } else {
        seg
    }
}

/// The array index denoted by a path segment, if any: an optional leading
/// `+`, then one or more decimal digits, with a value that fits `usize` --
/// the inputs on which `str::parse::<usize>` succeeds.
pub open spec fn parse_index(seg: Seq<char>) -> Option<int> {
    let digits = index_digits(seg);
    if digits.len() > 0 && all_digits(digits) && dec_value(digits) <= usize::MAX {
        Some(dec_value(digits) as int)
    } else {
        None
    }
}

/// Walk `segments` through `v`, left to right: a key into an object, a
/// numeric index into an array; any other combination resolves to nothing.
pub open spec fn resolve_path(v: JsonVal, segments: Seq<Seq<char>>) -> Option<JsonVal>
    decreases segments.len(),
{
    if segments.len() == 0 {
        Some(v)
    } else {
        match v {
            JsonVal::Obj(members) => match obj_lookup(members, segments[0]) {
                Some(inner) => resolve_path(inner, segments.skip(1)),
                None => None,
            },
            JsonVal::Arr(items) => match parse_index(segments[0]) {
                Some(i) => if i < items.len() {
                    resolve_path(items[i], segments.skip(1))
                } else {
                    None
                },
                None => None,
            },
            _ => None,
        }
    }
}

/// `s` cut at every occurrence of `sep`, as owned pieces.
pub fn split_str(s: &str, sep: char) -> (parts: Vec<String>)
    ensures
        parts.deep_view() == split_on(s@, sep),
{
    let n = s.unicode_len();
    let mut parts: Vec<String> = Vec::new();
    let mut cur: String = String::new();
    let mut i: usize = 0;
    while i < n
        invariant
            i <= n,
            n == s@.len(),
            parts.deep_view().push(cur@) =~~= split_on(s@.take(i as int), sep),
        decreases n - i,
    {
        let c = s.get_char(i);
        let ghost pre = s@.take(i as int);
        let ghost pd = parts.deep_view();
        proof {
            assert(s@.take(i + 1).drop_last() =~= pre);
            assert(s@.take(i + 1).last() == s@[i as int]);
        }
        if c == sep {
            parts.push(cur);
            cur = String::new();
            proof {
                assert(parts.deep_view() =~~= pd.push(split_on(pre, sep).last()));
                assert(parts.deep_view().push(cur@) =~~= split_on(s@.take(i + 1), sep));
            }
        } else {
            let piece = s.substring_char(i, i + 1);
            proof {
                assert(piece@ =~= seq![s@[i as int]]);
            }
            cur.append(piece);
            proof {
                lemma_split_len(pre, sep);
                let ps = split_on(pre, sep);
                assert(pd.push(cur@) =~~= ps.update(ps.len() - 1, ps.last().push(s@[i as int])));
                assert(parts.deep_view().push(cur@) =~~= split_on(s@.take(i + 1), sep));
            }
        }
        i = i + 1;
    }
    proof {
        assert(s@.take(n as int) =~= s@);
    }
    parts.push(cur);
    proof {
        assert(parts.deep_view() =~~= split_on(s@, sep));
    }
    parts
}

/// The flattened output key of a selector: its text with dots replaced by
/// underscores.
pub fn flatten_selector(sel: &str) -> (r: String)
    ensures
        r@ == flat_key(sel@),
{
    let n = sel.unicode_len();
    let mut out: String = String::new();
    let mut i: usize = 0;
    while i < n
        invariant
            i <= n,
            n == sel@.len(),
            out@ =~= flat_key(sel@.take(i as int)),
        decreases n - i,
    {
        let c = sel.get_char(i);
        if c == '.' {
            out.append("_");
            proof {
                reveal_strlit("_");
                assert(out@ =~= flat_key(sel@.take(i + 1)));
            }
        } else {
            let piece = sel.substring_char(i, i + 1);
            proof {
                assert(piece@ =~= seq![sel@[i as int]]);
            }
            out.append(piece);
            proof {
                assert(out@ =~= flat_key(sel@.take(i + 1)));
            }
        }
        i = i + 1;
    }
    proof {
        assert(sel@.take(n as int) =~= sel@);
    }
    out
}

/// Appending characters that are not below `'0'` never shrinks the number
/// a digit string denotes.
proof fn lemma_dec_value_extend(t: Seq<char>, u: Seq<char>)
    requires
        forall|i: int| 0 <= i < u.len() ==> #[trigger] u[i] >= '0',
    ensures
        dec_value(t + u) >= dec_value(t),
    decreases u.len(),
{
    if u.len() == 0 {
        assert(t + u =~= t);
    } else {
        lemma_dec_value_extend(t, u.drop_last());
        assert((t + u).drop_last() =~= t + u.drop_last());
        assert((t + u).last() == u.last());
        assert(dec_value(t + u.drop_last()) * 10 >= dec_value(t + u.drop_last()));
    }
}

/// The array index a path segment denotes, when it denotes one: exactly
/// the behaviour of `str::parse::<usize>`.
pub fn parse_index_exec(seg: &str) -> (r: Option<usize>)
    ensures
        match r {
            Some(v) => parse_index(seg@) == Some(v as int),
            None => parse_index(seg@) is None,
        },
{
    let n = seg.unicode_len();
    let start: usize = if n > 0 && seg.get_char(0) == '+' {
        1
    } else {
        0
    };
    let ghost digits = index_digits(seg@);
    proof {
        assert(digits =~= seg@.subrange(start as int, n as int));
    }
    if start >= n {
        return None;
    }
    let mut val: usize = 0;
    let mut i: usize = start;
    while i < n
        invariant
            start <= i <= n,
            start < n,
            n == seg@.len(),
            digits == index_digits(seg@),
            digits =~= seg@.subrange(start as int, n as int),
            all_digits(seg@.subrange(start as int, i as int)),
            val == dec_value(seg@.subrange(start as int, i as int)),
        decreases n - i,
    {
        let c = seg.get_char(i);
        let cv = c as u32;
        let ghost prefix = seg@.subrange(start as int, i as int);
        proof {
            assert(seg@.subrange(start as int, i + 1).drop_last() =~= prefix);
            assert(seg@.subrange(start as int, i + 1).last() == seg@[i as int]);
        }
        if cv < 48 || cv > 57 {
            proof {
                assert(digits[i - start] == seg@[i as int]);
                assert(!('0' <= digits[i - start] <= '9'));
            }
            return None;
        }
        let d = (cv - 48) as usize;
        let wide: u128 = (val as u128) * 10 + (d as u128);
        if wide > usize::MAX as u128 {
            proof {
                let ext = seg@.subrange(start as int, i + 1);
                assert(dec_value(ext) == val * 10 + d);
                let u = seg@.subrange(i + 1, n as int);
                assert(digits =~= ext + u);
                if all_digits(digits) {
                    assert(forall|k: int| 0 <= k < u.len() ==> #[trigger] u[k] >= '0') by {
                        assert(forall|k: int| 0 <= k < u.len() ==> #[trigger] u[k] == digits[i + 1
                            - start + k]);
                    }
                    lemma_dec_value_extend(ext, u);
                    assert(dec_value(digits) > usize::MAX);
                }
            }
            return None;
        }
        val = wide as usize;
        proof {
            assert(val == dec_value(seg@.subrange(start as int, i + 1)));
        }
        i = i + 1;
    }
    proof {
        assert(seg@.subrange(start as int, n as int) =~= digits);
        assert(digits.len() > 0);
    }
    Some(val)
}

/// The model of an executable member list.
pub open spec fn members_view(ms: Seq<(String, JsonValue)>) -> Seq<(Seq<char>, JsonVal)> {
    Seq::new(ms.len(), |i: int| (ms[i].0@, ms[i].1@))
}

/// Inserting at the position of the first member whose key already is
/// `key` is an update in place.
proof fn lemma_obj_insert_at(
    ms: Seq<(Seq<char>, JsonVal)>,
    key: Seq<char>,
    val: JsonVal,
    j: int,
)
    requires
        0 <= j < ms.len(),
        ms[j].0 == key,
        forall|l: int| 0 <= l < j ==> (#[trigger] ms[l]).0 != key,
    ensures
        obj_insert(ms, key, val) =~~= ms.update(j, (key, val)),
    decreases j,
{
    if j == 0 {
        assert(obj_insert(ms, key, val) =~~= ms.update(0, (key, val)));
    } else {
        assert(ms.skip(1)[j - 1].0 == key);
        lemma_obj_insert_at(ms.skip(1), key, val, j - 1);
        assert(seq![ms[0]] + ms.skip(1).update(j - 1, (key, val)) =~~= ms.update(j, (key, val)));
    }
}

/// Inserting a key that no member has appends at the end.
proof fn lemma_obj_insert_append(ms: Seq<(Seq<char>, JsonVal)>, key: Seq<char>, val: JsonVal)
    requires
        forall|l: int| 0 <= l < ms.len() ==> (#[trigger] ms[l]).0 != key,
    ensures
        obj_insert(ms, key, val) =~~= ms.push((key, val)),
    decreases ms.len(),
{
    if ms.len() == 0 {
        assert(obj_insert(ms, key, val) =~~= ms.push((key, val)));
    } else {
        lemma_obj_insert_append(ms.skip(1), key, val);
        assert(seq![ms[0]] + ms.skip(1).push((key, val)) =~~= ms.push((key, val)));
    }
}

/// Store `val` under `key` in an executable member list, with the member
/// order kept as `obj_insert` describes it.
pub fn obj_insert_exec(members: &mut Vec<(String, JsonValue)>, key: String, val: JsonValue)
    ensures
        members_view(final(members)@) == obj_insert(members_view(old(members)@), key@, val@),
{
    let ghost orig = members_view(members@);
    let n = members.len();
    let mut j: usize = 0;
    while j < n
        invariant
            j <= n,
            n == members@.len(),
            members_view(members@) == orig,
            orig == members_view(old(members)@),
            forall|l: int| 0 <= l < j ==> (#[trigger] orig[l]).0 != key@,
        decreases n - j,
    {
        if members[j].0 == key {
            proof {
                assert(orig[j as int].0 == members@[j as int].0@);
                lemma_obj_insert_at(orig, key@, val@, j as int);
            }
            members[j] = (key, val);
            proof {
                assert(members_view(members@) =~~= orig.update(j as int, (key@, val@)));
            }
            return;
        }
        j = j + 1;
    }
    proof {
        lemma_obj_insert_append(orig, key@, val@);
    }
    members.push((key, val));
    proof {
        assert(members_view(members@) =~~= orig.push((key@, val@)));
    }
}

/// One selector applied to `v`, folded into the members built so far:
/// if the selector's dotted path resolves, the value is stored under the
/// flattened key; otherwise the selector is dropped without a trace.
pub open spec fn extract_step(
    v: JsonVal,
    acc: Seq<(Seq<char>, JsonVal)>,
    sel: Seq<char>,
) -> Seq<(Seq<char>, JsonVal)> {
    match resolve_path(v, split_on(sel, '.')) {
        Some(found) => obj_insert(acc, flat_key(sel), found),
        None => acc,
    }
}

/// The members of the object that `selectors` extract from `v`.
pub open spec fn extract_members(
    v: JsonVal,
    selectors: Seq<Seq<char>>,
    acc: Seq<(Seq<char>, JsonVal)>,
) -> Seq<(Seq<char>, JsonVal)>
    decreases selectors.len(),
{
    if selectors.len() == 0 {
        acc
    } else {
        extract_members(v, selectors.skip(1), extract_step(v, acc, selectors[0]))
    }
}

/// Field selection: an object is reduced to the members its selectors
/// resolve to; an array is mapped element by element, keeping order and
/// length; every other value passes through unchanged.
pub open spec fn extract_val(v: JsonVal, selectors: Seq<Seq<char>>) -> JsonVal
    decreases v,
{
    match v {
        JsonVal::Obj(members) => JsonVal::Obj(extract_members(v, selectors, Seq::empty())),
        JsonVal::Arr(items) => JsonVal::Arr(
            Seq::new(items.len(), |i: int| if 0 <= i < items.len() {
                extract_val(items[i], selectors)
            } else {
                JsonVal::Null
            }),
        ),
        _ => v,
    }
}

/// Selector flattening: one selector applied to an object either stores
/// the resolved value under the flattened key — dots turned into
/// underscores — or, when its path does not resolve, leaves the result
/// empty, with the key absent rather than null.
pub proof fn lemma_selector_flattening(members: Seq<(Seq<char>, JsonVal)>, sel: Seq<char>)
    ensures
        extract_val(JsonVal::Obj(members), seq![sel]) == JsonVal::Obj(
            match resolve_path(JsonVal::Obj(members), split_on(sel, '.')) {
                Some(found) => seq![(flat_key(sel), found)],
                None => Seq::empty(),
            },
        ),
{
    let v = JsonVal::Obj(members);
    let sels = seq![sel];
    assert(sels.skip(1) =~= Seq::<Seq<char>>::empty());
    let step = extract_step(v, Seq::empty(), sel);
    assert(extract_members(v, Seq::<Seq<char>>::empty(), step) == step);
    assert(extract_members(v, sels, Seq::empty()) == extract_members(v, sels.skip(1), step));
    assert(extract_members(v, sels, Seq::empty()) == step);
    match resolve_path(v, split_on(sel, '.')) {
        Some(found) => {
            assert(obj_insert(Seq::empty(), flat_key(sel), found) =~= seq![(flat_key(sel), found)]);
        },
        None => {},
    }
}

/// Array broadcast: extraction over an array keeps its length and order
/// and applies the same selectors to every element independently.
pub proof fn lemma_array_broadcast(items: Seq<JsonVal>, selectors: Seq<Seq<char>>)
    ensures
        extract_val(JsonVal::Arr(items), selectors) matches JsonVal::Arr(out) && out.len()
            == items.len() && forall|i: int|
            0 <= i < items.len() ==> out[i] == extract_val(#[trigger] items[i], selectors),
{
}

} // verus!
