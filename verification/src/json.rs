//! A JSON value as the rest of the library reads and builds it.

use vstd::prelude::*;

verus! {

/// What the logic reads of a JSON number: its integer value when it is one
/// that fits an `i64`; otherwise the integer part of its floating-point value
/// (the integer itself when it is one); whether it is positive; and its
/// printed form.
pub struct JsonNumber {
    pub as_i64: Option<i64>,
    pub float_trunc: i64,
    pub float_positive: bool,
    pub text: String,
}

/// A JSON value.
pub enum Json {
    Null,
    Bool(bool),
    Number(JsonNumber),
    Str(String),
    Array(Vec<Json>),
    Object(Vec<(String, Json)>),
}

/// The mathematical form of a JSON value.
pub enum JsonV {
    Null,
    Bool(bool),
    Number(Option<i64>, i64, bool, Seq<char>),
    Str(Seq<char>),
    Array(Seq<JsonV>),
    Object(Seq<(Seq<char>, JsonV)>),
}

impl Json {
    pub open spec fn view_deep(self) -> JsonV
        decreases self,
    {
        match self {
            Json::Null => JsonV::Null,
            Json::Bool(b) => JsonV::Bool(b),
            Json::Number(n) => JsonV::Number(n.as_i64, n.float_trunc, n.float_positive, n.text@),
            Json::Str(s) => JsonV::Str(s@),
            Json::Array(a) => JsonV::Array(Seq::new(a@.len(), |i: int| if 0 <= i < a@.len() {
                proof { assert(decreases_to!(self => a@[i])); }
                a@[i].view_deep()
            } else {
                JsonV::Null
            })),
            Json::Object(o) => JsonV::Object(Seq::new(o@.len(), |i: int| if 0 <= i < o@.len() {
                proof { assert(decreases_to!(self => o@[i].1)); }
                (o@[i].0@, o@[i].1.view_deep())
            } else {
                (Seq::empty(), JsonV::Null)
            })),
        }
    }
}


/// The value of the first member of `o` named `k`.
pub open spec fn obj_get_spec(o: Seq<(String, Json)>, k: Seq<char>) -> Option<Json>
    decreases o.len(),
{
    if o.len() == 0 {
        None
    } else if o[0].0@ == k {
        Some(o[0].1)
    } else {
        obj_get_spec(o.drop_first(), k)
    }
}

/// What a lookup finds is the value of one of the members.
pub proof fn lemma_get_is_member(o: Seq<(String, Json)>, k: Seq<char>)
    ensures
        obj_get_spec(o, k) is Some ==> exists|i: int| 0 <= i < o.len() && #[trigger] o[i].1 == obj_get_spec(o, k)->0,
    decreases o.len(),
{
    if o.len() > 0 && o[0].0@ != k {
        lemma_get_is_member(o.drop_first(), k);
        if obj_get_spec(o, k) is Some {
            let i = choose|i: int| 0 <= i < o.drop_first().len() && #[trigger] o.drop_first()[i].1 == obj_get_spec(o, k)->0;
            assert(o[i + 1].1 == o.drop_first()[i].1);
        }
    } else if o.len() > 0 {
        assert(o[0].1 == obj_get_spec(o, k)->0);
    }
}

/// Looks up member `k` of an object (the first one, should the name repeat).
pub fn obj_get<'a>(o: &'a Vec<(String, Json)>, k: &str) -> (r: Option<&'a Json>)
    ensures
        match r {
            Some(v) => obj_get_spec(o@, k@) == Some(*v),
            None => obj_get_spec(o@, k@) is None,
        },
{
    let key = crate::text::chars_of(k);
    let mut i: usize = 0;
    proof {
        assert(o@.skip(0) =~= o@);
    }
    while i < o.len()
        invariant
            i <= o@.len(),
            key@ == k@,
            obj_get_spec(o@, k@) == obj_get_spec(o@.skip(i as int), k@),
        decreases o@.len() - i,
    {
        let name = crate::text::chars_of(o[i].0.as_str());
        proof {
            assert(o@.skip(i as int).drop_first() =~= o@.skip(i + 1));
        }
        if crate::text::same_text(&name, &key) {
            return Some(&o[i].1);
        }
        i = i + 1;
    }
    None
}

impl Json {
    /// The text of a string value.
    pub open spec fn as_str_spec(self) -> Option<Seq<char>> {
        match self {
            Json::Str(s) => Some(s@),
            _ => None,
        }
    }

    /// The integer value of a number that is one.
    pub open spec fn as_i64_spec(self) -> Option<i64> {
        match self {
            Json::Number(n) => n.as_i64,
            _ => None,
        }
    }

    /// The text of a string value.
    pub fn as_str(&self) -> (r: Option<&str>)
        ensures
            match r {
                Some(s) => self.as_str_spec() == Some(s@),
                None => self.as_str_spec() is None,
            },
    {
        match self {
            Json::Str(s) => Some(s.as_str()),
            _ => None,
        }
    }

    /// The integer value of a number that is one.
    pub fn as_i64(&self) -> (r: Option<i64>)
        ensures
            r == self.as_i64_spec(),
    {
        match self {
            Json::Number(n) => n.as_i64,
            _ => None,
        }
    }
}

impl JsonNumber {
    /// A copy of this number.
    pub fn copied(&self) -> (r: JsonNumber)
        ensures
            r.as_i64 == self.as_i64,
            r.float_trunc == self.float_trunc,
            r.float_positive == self.float_positive,
            r.text@ == self.text@,
    {
        JsonNumber {
            as_i64: self.as_i64,
            float_trunc: self.float_trunc,
            float_positive: self.float_positive,
            text: self.text.clone(),
        }
    }
}

impl Json {
    /// A deep copy of this value.
    pub fn deep_copy(&self) -> (r: Json)
        ensures
            r.view_deep() == self.view_deep(),
        decreases self,
    {
        match self {
            Json::Null => Json::Null,
            Json::Bool(b) => Json::Bool(*b),
            Json::Number(n) => Json::Number(n.copied()),
            Json::Str(s) => Json::Str(s.clone()),
            Json::Array(a) => {
                let mut out: Vec<Json> = Vec::new();
                let mut i: usize = 0;
                while i < a.len()
                    invariant
                        i <= a@.len(),
                        *self == Json::Array(*a),
                        out@.len() == i,
                        forall|k: int| 0 <= k < i ==> (#[trigger] out@[k]).view_deep() == a@[k].view_deep(),
                    decreases a@.len() - i,
                {
                    proof {
                        assert(decreases_to!(*self => (*self)->Array_0));
                        assert((*self)->Array_0 == *a);
                        assert(decreases_to!(*a => a@));
                        assert(decreases_to!(a@ => a@[i as int]));
                        assert(decreases_to!(*self => a@[i as int]));
                    }
                    out.push(a[i].deep_copy());
                    i = i + 1;
                }
                let r = Json::Array(out);
                proof {
                    assert(r.view_deep() =~= self.view_deep()) by {
                        if let JsonV::Array(x) = r.view_deep() {
                            if let JsonV::Array(y) = self.view_deep() {
                                assert(x =~= y);
                            }
                        }
                    }
                }
                r
            },
            Json::Object(o) => {
                let mut out: Vec<(String, Json)> = Vec::new();
                let mut i: usize = 0;
                while i < o.len()
                    invariant
                        i <= o@.len(),
                        *self == Json::Object(*o),
                        out@.len() == i,
                        forall|k: int| 0 <= k < i ==> (#[trigger] out@[k]).0@ == o@[k].0@ && out@[k].1.view_deep() == o@[k].1.view_deep(),
                    decreases o@.len() - i,
                {
                    proof {
                        assert(decreases_to!(*self => (*self)->Object_0));
                        assert((*self)->Object_0 == *o);
                        assert(decreases_to!(*o => o@));
                        assert(decreases_to!(o@ => o@[i as int]));
                        assert(decreases_to!(o@[i as int] => o@[i as int].1));
                        assert(decreases_to!(*self => o@[i as int].1));
                    }
                    let v = o[i].1.deep_copy();
                    out.push((o[i].0.clone(), v));
                    i = i + 1;
                }
                let r = Json::Object(out);
                proof {
                    assert(r.view_deep() =~= self.view_deep()) by {
                        if let JsonV::Object(x) = r.view_deep() {
                            if let JsonV::Object(y) = self.view_deep() {
                                assert(x =~= y);
                            }
                        }
                    }
                }
                r
            },
        }
    }
}

/// Position of the member that `obj_get_spec` finds.
pub fn obj_index(o: &Vec<(String, Json)>, k: &str) -> (r: Option<usize>)
    ensures
        match r {
            Some(i) => i < o@.len() && obj_get_spec(o@, k@) == Some(o@[i as int].1) && o@[i as int].0@ == k@
                && forall|j: int| 0 <= j < i ==> (#[trigger] o@[j]).0@ != k@,
            None => obj_get_spec(o@, k@) is None && forall|j: int| 0 <= j < o@.len() ==> (#[trigger] o@[j]).0@ != k@,
        },
{
    let key = crate::text::chars_of(k);
    let mut i: usize = 0;
    proof {
        assert(o@.skip(0) =~= o@);
    }
    while i < o.len()
        invariant
            i <= o@.len(),
            key@ == k@,
            obj_get_spec(o@, k@) == obj_get_spec(o@.skip(i as int), k@),
            forall|j: int| 0 <= j < i ==> (#[trigger] o@[j]).0@ != k@,
        decreases o@.len() - i,
    {
        let name = crate::text::chars_of(o[i].0.as_str());
        proof {
            assert(o@.skip(i as int).drop_first() =~= o@.skip(i + 1));
            assert(o@.skip(i as int)[0] == o@[i as int]);
        }
        if crate::text::same_text(&name, &key) {
            return Some(i);
        }
        i = i + 1;
    }
    None
}

/// The array held by member `k`, if it holds one.
pub open spec fn array_member(m: Seq<(String, Json)>, k: Seq<char>) -> Option<Seq<Json>> {
    match obj_get_spec(m, k) {
        Some(Json::Array(a)) => Some(a@),
        _ => None,
    }
}

/// The array of the first of `keys` whose member holds one.
pub open spec fn first_array_member(m: Seq<(String, Json)>, keys: Seq<Seq<char>>) -> Option<Seq<Json>>
    decreases keys.len(),
{
    if keys.len() == 0 {
        None
    } else {
        match array_member(m, keys[0]) {
            Some(a) => Some(a),
            None => first_array_member(m, keys.drop_first()),
        }
    }
}

/// The array found one level down: under the first of `outer` that holds an
/// object, the first of `inner` that holds an array.
pub open spec fn nested_array_member(m: Seq<(String, Json)>, outer: Seq<Seq<char>>, inner: Seq<Seq<char>>) -> Option<Seq<Json>>
    decreases outer.len(),
{
    if outer.len() == 0 {
        None
    } else {
        match obj_get_spec(m, outer[0]) {
            Some(Json::Object(o)) => match first_array_member(o@, inner) {
                Some(a) => Some(a),
                None => nested_array_member(m, outer.drop_first(), inner),
            },
            _ => nested_array_member(m, outer.drop_first(), inner),
        }
    }
}

/// Position of the member whose array `first_array_member` finds.
pub fn first_array_index(m: &Vec<(String, Json)>, keys: &[&str]) -> (r: Option<usize>)
    ensures
        match r {
            Some(j) => j < m@.len() && (m@[j as int].1 matches Json::Array(a) && first_array_member(m@, keys@.map_values(|s: &str| s@)) == Some(a@)),
            None => first_array_member(m@, keys@.map_values(|s: &str| s@)) is None,
        },
{
    let ghost ks = keys@.map_values(|s: &str| s@);
    let mut i: usize = 0;
    proof {
        assert(ks.skip(0) =~= ks);
    }
    while i < keys.len()
        invariant
            i <= keys@.len(),
            ks == keys@.map_values(|s: &str| s@),
            first_array_member(m@, ks) == first_array_member(m@, ks.skip(i as int)),
        decreases keys@.len() - i,
    {
        proof {
            assert(ks.skip(i as int).drop_first() =~= ks.skip(i + 1));
            assert(ks.skip(i as int)[0] == keys@[i as int]@);
        }
        if let Some(j) = obj_index(m, keys[i]) {
            if let Json::Array(_) = &m[j].1 {
                return Some(j);
            }
        }
        i = i + 1;
    }
    proof {
        assert(ks.skip(keys@.len() as int) =~= Seq::<Seq<char>>::empty());
    }
    None
}

/// Positions (outer member, inner member) of the array `nested_array_member` finds.
pub fn nested_array_index(m: &Vec<(String, Json)>, outer: &[&str], inner: &[&str]) -> (r: Option<(usize, usize)>)
    ensures
        match r {
            Some((j, k)) => j < m@.len() && (m@[j as int].1 matches Json::Object(o) && k < o@.len() && (o@[k as int].1 matches Json::Array(a)
                && nested_array_member(m@, outer@.map_values(|s: &str| s@), inner@.map_values(|s: &str| s@)) == Some(a@))),
            None => nested_array_member(m@, outer@.map_values(|s: &str| s@), inner@.map_values(|s: &str| s@)) is None,
        },
{
    let ghost os = outer@.map_values(|s: &str| s@);
    let ghost is = inner@.map_values(|s: &str| s@);
    let mut i: usize = 0;
    proof {
        assert(os.skip(0) =~= os);
    }
    while i < outer.len()
        invariant
            i <= outer@.len(),
            os == outer@.map_values(|s: &str| s@),
            is == inner@.map_values(|s: &str| s@),
            nested_array_member(m@, os, is) == nested_array_member(m@, os.skip(i as int), is),
        decreases outer@.len() - i,
    {
        proof {
            assert(os.skip(i as int).drop_first() =~= os.skip(i + 1));
            assert(os.skip(i as int)[0] == outer@[i as int]@);
        }
        if let Some(j) = obj_index(m, outer[i]) {
            if let Json::Object(o) = &m[j].1 {
                if let Some(k) = first_array_index(o, inner) {
                    return Some((j, k));
                }
            }
        }
        i = i + 1;
    }
    proof {
        assert(os.skip(outer@.len() as int) =~= Seq::<Seq<char>>::empty());
    }
    None
}

/// The arrays among the members' values, in order.
pub open spec fn array_values(m: Seq<(String, Json)>) -> Seq<Seq<Json>>
    decreases m.len(),
{
    if m.len() == 0 {
        Seq::empty()
    } else {
        array_values(m.drop_last()) + match m.last().1 {
            Json::Array(a) => seq![a@],
            _ => Seq::empty(),
        }
    }
}

/// When member `j` is the only one that holds an array, the arrays among the
/// members are that one alone.
pub proof fn lemma_sole_array(m: Seq<(String, Json)>, j: int)
    requires
        0 <= j < m.len(),
        m[j].1 is Array,
        forall|i: int| 0 <= i < m.len() && i != j ==> !(#[trigger] m[i].1 is Array),
    ensures
        array_values(m) == seq![m[j].1->Array_0@],
    decreases m.len(),
{
    if j == m.len() - 1 {
        lemma_no_arrays(m.drop_last());
        assert(array_values(m.drop_last()) =~= Seq::<Seq<Json>>::empty());
        assert(array_values(m) =~= seq![m[j].1->Array_0@]);
    } else {
        assert forall|i: int| 0 <= i < m.drop_last().len() && i != j implies !(#[trigger] m.drop_last()[i].1 is Array) by {
            assert(m.drop_last()[i] == m[i]);
        }
        assert(m.drop_last()[j] == m[j]);
        lemma_sole_array(m.drop_last(), j);
        assert(!(m[m.len() - 1].1 is Array));
        assert(array_values(m) =~= seq![m[j].1->Array_0@]);
    }
}

/// With no member holding an array, there are no arrays among the members.
pub proof fn lemma_no_arrays(m: Seq<(String, Json)>)
    requires
        forall|i: int| 0 <= i < m.len() ==> !(#[trigger] m[i].1 is Array),
    ensures
        array_values(m).len() == 0,
    decreases m.len(),
{
    if m.len() > 0 {
        assert forall|i: int| 0 <= i < m.drop_last().len() implies !(#[trigger] m.drop_last()[i].1 is Array) by {
            assert(m.drop_last()[i] == m[i]);
        }
        lemma_no_arrays(m.drop_last());
        assert(!(m[m.len() - 1].1 is Array));
    }
}

/// How many members hold arrays, and the position of the first one.
pub fn count_arrays(m: &Vec<(String, Json)>) -> (r: (usize, usize))
    ensures
        r.0 == array_values(m@).len(),
        r.0 >= 1 ==> r.1 < m@.len() && (m@[r.1 as int].1 matches Json::Array(a) && array_values(m@)[0] == a@),
{
    let mut count: usize = 0;
    let mut first: usize = 0;
    let mut i: usize = 0;
    while i < m.len()
        invariant
            i <= m@.len(),
            count == array_values(m@.take(i as int)).len(),
            count <= i,
            count >= 1 ==> first < i && (m@[first as int].1 matches Json::Array(a) && array_values(m@.take(i as int))[0] == a@),
        decreases m@.len() - i,
    {
        proof {
            assert(m@.take(i + 1).drop_last() =~= m@.take(i as int));
            assert(m@.take(i + 1).last() == m@[i as int]);
        }
        if let Json::Array(_) = &m[i].1 {
            if count == 0 {
                first = i;
            }
            count = count + 1;
        }
        i = i + 1;
    }
    proof {
        assert(m@.take(m@.len() as int) =~= m@);
    }
    (count, first)
}

/// An object's members as a map: each key to the form of the value of its
/// first member.
pub open spec fn obj_view(o: Seq<(String, Json)>) -> Map<Seq<char>, JsonV>
    decreases o.len(),
{
    if o.len() == 0 {
        Map::empty()
    } else {
        obj_view(o.drop_first()).insert(o[0].0@, o[0].1.view_deep())
    }
}

/// No key names two members, so that every reading of the object (the
/// first member of a key winning, or the last) gives the same map.
pub open spec fn keys_distinct(o: Seq<(String, Json)>) -> bool {
    forall|i: int, j: int| 0 <= i < j < o.len() ==> (#[trigger] o[i]).0@ != (#[trigger] o[j]).0@
}

/// In an object with distinct keys, every member is what the map holds
/// under its key: the map does not depend on which duplicate wins.
pub proof fn lemma_distinct_members(o: Seq<(String, Json)>, i: int)
    requires
        keys_distinct(o),
        0 <= i < o.len(),
    ensures
        obj_view(o).contains_key(o[i].0@),
        obj_view(o)[o[i].0@] == o[i].1.view_deep(),
    decreases o.len(),
{
    if i > 0 {
        assert(keys_distinct(o.drop_first())) by {
            assert forall|a: int, b: int| 0 <= a < b < o.drop_first().len() implies (#[trigger] o.drop_first()[a]).0@
                != (#[trigger] o.drop_first()[b]).0@ by {
                assert(o.drop_first()[a] == o[a + 1] && o.drop_first()[b] == o[b + 1]);
            }
        }
        assert(o.drop_first()[i - 1] == o[i]);
        lemma_distinct_members(o.drop_first(), i - 1);
        assert(o[0].0@ != o[i].0@);
    }
}

proof fn lemma_obj_view_lacks(o: Seq<(String, Json)>, k: Seq<char>)
    requires
        forall|j: int| 0 <= j < o.len() ==> (#[trigger] o[j]).0@ != k,
    ensures
        !obj_view(o).contains_key(k),
    decreases o.len(),
{
    if o.len() > 0 {
        assert forall|j: int| 0 <= j < o.drop_first().len() implies (#[trigger] o.drop_first()[j]).0@ != k by {
            assert(o.drop_first()[j] == o[j + 1]);
        }
        lemma_obj_view_lacks(o.drop_first(), k);
        assert(o[0].0@ != k);
    }
}

/// Inserting the members of an object with distinct keys into a map, in
/// order (a JSON map's `insert`, the last member winning), lays its map
/// over the map: for such an object, reading the first member of a key or
/// the last gives the same.
pub proof fn lemma_insert_all_distinct(m: Map<Seq<char>, JsonV>, o: Seq<(String, Json)>)
    requires
        keys_distinct(o),
    ensures
        insert_all(m, o) == m.union_prefer_right(obj_view(o)),
        insert_all(Map::empty(), o) == obj_view(o),
    decreases o.len(),
{
    if o.len() == 0 {
        assert(m.union_prefer_right(obj_view(o)) =~= m);
        assert(Map::<Seq<char>, JsonV>::empty().union_prefer_right(obj_view(o)) =~= obj_view(o));
    } else {
        let rest = o.drop_first();
        assert(keys_distinct(rest)) by {
            assert forall|a: int, b: int| 0 <= a < b < rest.len() implies (#[trigger] rest[a]).0@ != (#[trigger] rest[b]).0@ by {
                assert(rest[a] == o[a + 1] && rest[b] == o[b + 1]);
            }
        }
        assert forall|j: int| 0 <= j < rest.len() implies (#[trigger] rest[j]).0@ != o[0].0@ by {
            assert(rest[j] == o[j + 1]);
        }
        lemma_obj_view_lacks(rest, o[0].0@);
        let m1 = m.insert(o[0].0@, o[0].1.view_deep());
        lemma_insert_all_distinct(m1, rest);
        lemma_insert_all_distinct(Map::empty(), rest);
        assert(m1.union_prefer_right(obj_view(rest)) =~= m.union_prefer_right(obj_view(o)));
        let e1 = Map::<Seq<char>, JsonV>::empty().insert(o[0].0@, o[0].1.view_deep());
        lemma_insert_all_distinct(e1, rest);
        assert(e1.union_prefer_right(obj_view(rest)) =~= obj_view(o));
    }
}

/// The map has a key exactly when some member has it.
pub proof fn lemma_obj_view_has(o: Seq<(String, Json)>, k: Seq<char>)
    ensures
        obj_view(o).contains_key(k) <==> obj_get_spec(o, k) is Some,
    decreases o.len(),
{
    if o.len() > 0 {
        lemma_obj_view_has(o.drop_first(), k);
    }
}

/// Adding a member under a new key adds it to the map.
pub proof fn lemma_obj_view_push(o: Seq<(String, Json)>, x: (String, Json))
    requires
        forall|j: int| 0 <= j < o.len() ==> (#[trigger] o[j]).0@ != x.0@,
    ensures
        obj_view(o.push(x)) == obj_view(o).insert(x.0@, x.1.view_deep()),
    decreases o.len(),
{
    if o.len() == 0 {
        assert(o.push(x).drop_first() =~= Seq::<(String, Json)>::empty());
        assert(obj_view(Seq::<(String, Json)>::empty()) == Map::<Seq<char>, JsonV>::empty());
        assert(o =~= Seq::<(String, Json)>::empty());
        assert(obj_view(o.push(x)) =~= obj_view(o).insert(x.0@, x.1.view_deep()));
    } else {
        assert(o.push(x).drop_first() =~= o.drop_first().push(x));
        assert forall|j: int| 0 <= j < o.drop_first().len() implies (#[trigger] o.drop_first()[j]).0@ != x.0@ by {
            assert(o.drop_first()[j] == o[j + 1]);
        }
        lemma_obj_view_push(o.drop_first(), x);
        assert(o.push(x)[0] == o[0]);
        assert(o[0].0@ != x.0@);
        let a = obj_view(o.drop_first());
        assert(obj_view(o.push(x)) == obj_view(o.drop_first().push(x)).insert(o[0].0@, o[0].1.view_deep()));
        assert(obj_view(o.push(x)) == a.insert(x.0@, x.1.view_deep()).insert(o[0].0@, o[0].1.view_deep()));
        assert(obj_view(o) == a.insert(o[0].0@, o[0].1.view_deep()));
        assert(obj_view(o.push(x)) =~= obj_view(o).insert(x.0@, x.1.view_deep()));
    }
}

/// Replacing the first member under a key replaces its value in the map.
pub proof fn lemma_obj_view_update(o: Seq<(String, Json)>, i: int, x: (String, Json))
    requires
        0 <= i < o.len(),
        o[i].0@ == x.0@,
        forall|j: int| 0 <= j < i ==> (#[trigger] o[j]).0@ != x.0@,
    ensures
        obj_view(o.update(i, x)) == obj_view(o).insert(x.0@, x.1.view_deep()),
    decreases o.len(),
{
    if i == 0 {
        assert(o.update(0, x).drop_first() =~= o.drop_first());
        assert(obj_view(o.update(i, x)) =~= obj_view(o).insert(x.0@, x.1.view_deep()));
    } else {
        assert(o.update(i, x).drop_first() =~= o.drop_first().update(i - 1, x));
        assert forall|j: int| 0 <= j < i - 1 implies (#[trigger] o.drop_first()[j]).0@ != x.0@ by {
            assert(o.drop_first()[j] == o[j + 1]);
        }
        lemma_obj_view_update(o.drop_first(), i - 1, x);
        assert(o[0].0@ != x.0@);
        assert(obj_view(o.update(i, x)) =~= obj_view(o).insert(x.0@, x.1.view_deep()));
    }
}

/// The forms of an object's members, in order.
pub open spec fn members_view(o: Seq<(String, Json)>) -> Seq<(Seq<char>, JsonV)> {
    o.map_values(|x: (String, Json)| (x.0@, x.1.view_deep()))
}

/// The first member of `s` named `k`.
pub open spec fn first_member(s: Seq<(Seq<char>, JsonV)>, k: Seq<char>) -> Option<int>
    decreases s.len(),
{
    if s.len() == 0 {
        None
    } else if s[0].0 == k {
        Some(0)
    } else {
        match first_member(s.drop_first(), k) {
            Some(i) => Some(i + 1),
            None => None,
        }
    }
}

proof fn lemma_first_member(s: Seq<(Seq<char>, JsonV)>, k: Seq<char>, i: int)
    requires
        0 <= i < s.len(),
        s[i].0 == k,
        forall|j: int| 0 <= j < i ==> (#[trigger] s[j]).0 != k,
    ensures
        first_member(s, k) == Some(i),
    decreases s.len(),
{
    if i > 0 {
        assert forall|j: int| 0 <= j < i - 1 implies (#[trigger] s.drop_first()[j]).0 != k by {
            assert(s.drop_first()[j] == s[j + 1]);
        }
        lemma_first_member(s.drop_first(), k, i - 1);
    }
}

proof fn lemma_no_member(s: Seq<(Seq<char>, JsonV)>, k: Seq<char>)
    requires
        forall|j: int| 0 <= j < s.len() ==> (#[trigger] s[j]).0 != k,
    ensures
        first_member(s, k) is None,
    decreases s.len(),
{
    if s.len() > 0 {
        assert forall|j: int| 0 <= j < s.len() - 1 implies (#[trigger] s.drop_first()[j]).0 != k by {
            assert(s.drop_first()[j] == s[j + 1]);
        }
        lemma_no_member(s.drop_first(), k);
    }
}

/// The members after setting `k` to `v`: the first member named `k` takes
/// the value, or a member is added at the end.
pub open spec fn insert_member(s: Seq<(Seq<char>, JsonV)>, k: Seq<char>, v: JsonV) -> Seq<(Seq<char>, JsonV)> {
    match first_member(s, k) {
        Some(i) => s.update(i, (k, v)),
        None => s.push((k, v)),
    }
}

/// Sets member `k` to `v`, replacing its value if it is there and adding it
/// at the end if not (as a JSON map's `insert` does).
pub fn obj_insert(o: &mut Vec<(String, Json)>, k: String, v: Json)
    ensures
        obj_view(final(o)@) == obj_view(old(o)@).insert(k@, v.view_deep()),
        members_view(final(o)@) == insert_member(members_view(old(o)@), k@, v.view_deep()),
        keys_distinct(old(o)@) ==> keys_distinct(final(o)@),
{
    let ghost kv = k@;
    let ghost vv = v.view_deep();
    match obj_index(o, k.as_str()) {
        Some(i) => {
            proof {
                lemma_obj_view_update(o@, i as int, (k, v));
                assert forall|j: int| 0 <= j < i implies (#[trigger] members_view(o@)[j]).0 != kv by {
                    assert(members_view(o@)[j].0 == o@[j].0@);
                }
                lemma_first_member(members_view(o@), kv, i as int);
            }
            let ghost before = o@;
            o[i] = (k, v);
            proof {
                assert(members_view(o@) =~= members_view(before).update(i as int, (kv, vv)));
                assert forall|a: int, b: int| 0 <= a < b < o@.len() && keys_distinct(before) implies (#[trigger] o@[a]).0@
                    != (#[trigger] o@[b]).0@ by {
                    assert(o@[a].0@ == before[a].0@ && o@[b].0@ == before[b].0@);
                }
            }
        },
        None => {
            proof {
                lemma_obj_view_push(o@, (k, v));
                assert forall|j: int| 0 <= j < members_view(o@).len() implies (#[trigger] members_view(o@)[j]).0 != kv by {
                    assert(members_view(o@)[j].0 == o@[j].0@);
                }
                lemma_no_member(members_view(o@), kv);
            }
            let ghost before = o@;
            proof {
                assert(forall|j: int| 0 <= j < before.len() ==> (#[trigger] members_view(before)[j]).0 == before[j].0@);
            }
            o.push((k, v));
            proof {
                assert(members_view(o@) =~= members_view(before).push((kv, vv)));
                assert forall|a: int, b: int| 0 <= a < b < o@.len() && keys_distinct(before) implies (#[trigger] o@[a]).0@
                    != (#[trigger] o@[b]).0@ by {
                    if b == before.len() {
                        assert(members_view(before)[a].0 != kv);
                    } else {
                        assert(o@[a] == before[a] && o@[b] == before[b]);
                    }
                }
            }
        },
    }
}

/// The map after inserting the members of `s` in order, later ones winning.
pub open spec fn insert_all(m: Map<Seq<char>, JsonV>, s: Seq<(String, Json)>) -> Map<Seq<char>, JsonV>
    decreases s.len(),
{
    if s.len() == 0 {
        m
    } else {
        insert_all(m.insert(s[0].0@, s[0].1.view_deep()), s.drop_first())
    }
}

/// Inserts every member of `extra` into `base`, later ones winning.
pub fn merge(base: &mut Vec<(String, Json)>, extra: Vec<(String, Json)>)
    ensures
        obj_view(final(base)@) == insert_all(obj_view(old(base)@), extra@),
        keys_distinct(old(base)@) ==> keys_distinct(final(base)@),
{
    let ghost e0 = extra@;
    let mut extra = extra;
    proof {
        assert(e0.skip(0) =~= e0);
    }
    let ghost mut taken: int = 0;
    while extra.len() > 0
        invariant
            taken <= e0.len(),
            0 <= taken,
            taken + extra@.len() == e0.len(),
            extra@ == e0.skip(taken),
            insert_all(obj_view(old(base)@), e0) == insert_all(obj_view(base@), extra@),
            keys_distinct(old(base)@) ==> keys_distinct(base@),
        decreases extra@.len(),
    {
        let ghost before = extra@;
        let (k, v) = extra.remove(0);
        proof {
            assert(extra@ =~= before.drop_first());
            assert(e0.skip(taken).drop_first() =~= e0.skip(taken + 1));
        }
        obj_insert(base, k, v);
        proof {
            taken = taken + 1;
        }
    }
}

/// Sets member `key` when a value is given.
pub fn insert_opt(map: &mut Vec<(String, Json)>, key: &str, value: Option<Json>)
    ensures
        match value {
            Some(v) => obj_view(final(map)@) == obj_view(old(map)@).insert(key@, v.view_deep()),
            None => final(map)@ == old(map)@,
        },
        keys_distinct(old(map)@) ==> keys_distinct(final(map)@),
{
    if let Some(v) = value {
        obj_insert(map, key.to_owned(), v);
    }
}

/// The form of a JSON array of strings.
pub open spec fn string_array(items: Seq<String>) -> JsonV {
    JsonV::Array(items.map_values(|s: String| JsonV::Str(s@)))
}

/// A JSON array of strings.
pub fn vec_to_array(items: &Vec<String>) -> (r: Json)
    ensures
        r.view_deep() == string_array(items@),
{
    let mut out: Vec<Json> = Vec::new();
    let mut i: usize = 0;
    while i < items.len()
        invariant
            i <= items@.len(),
            out@.len() == i,
            forall|j: int| 0 <= j < i ==> (#[trigger] out@[j]).view_deep() == JsonV::Str(items@[j]@),
        decreases items@.len() - i,
    {
        out.push(Json::Str(items[i].clone()));
        i = i + 1;
    }
    let r = Json::Array(out);
    proof {
        if let JsonV::Array(x) = r.view_deep() {
            assert(x =~= items@.map_values(|s: String| JsonV::Str(s@)));
        }
    }
    r
}

/// Sets member `key` to the array of `value` when it is not empty.
pub fn insert_vec(map: &mut Vec<(String, Json)>, key: &str, value: &Vec<String>)
    ensures
        value@.len() > 0 ==> obj_view(final(map)@) == obj_view(old(map)@).insert(key@, string_array(value@)),
        value@.len() == 0 ==> final(map)@ == old(map)@,
        keys_distinct(old(map)@) ==> keys_distinct(final(map)@),
{
    if value.len() > 0 {
        let a = vec_to_array(value);
        obj_insert(map, key.to_owned(), a);
    }
}


/// The form of a JSON integer.
pub open spec fn int_json(n: i64) -> JsonV {
    JsonV::Number(Some(n), n, n > 0, crate::text::int_text(n as int))
}

/// A JSON integer.
pub fn json_int(n: i64) -> (r: Json)
    ensures
        r.view_deep() == int_json(n),
{
    let t = crate::text::string_of(&crate::text::int_chars(n));
    Json::Number(JsonNumber { as_i64: Some(n), float_trunc: n, float_positive: n > 0, text: t })
}

} // verus!
