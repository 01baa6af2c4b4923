//! JSON values as the library holds them (a number is kept as its text),
//! their mathematical view, and member lookup.
use crate::text;
use vstd::prelude::*;

verus! {

/// A JSON value. An object's members are kept in order.
#[derive(Debug, PartialEq, Eq)]
pub enum Json {
    Null,
    Bool(bool),
    /// A number, as its JSON text.
    Number(String),
    Str(String),
    Array(Vec<Json>),
    Object(Vec<(String, Json)>),
}

/// The view of a JSON value.
pub enum JsonV {
    Null,
    Bool(bool),
    Number(Seq<char>),
    Str(Seq<char>),
    Array(Seq<JsonV>),
    Object(Seq<(Seq<char>, JsonV)>),
}

/// The view of a value.
pub open spec fn jview(j: Json) -> JsonV
    decreases j, 1int,
{
    match j {
        Json::Null => JsonV::Null,
        Json::Bool(b) => JsonV::Bool(b),
        Json::Number(n) => JsonV::Number(n@),
        Json::Str(s) => JsonV::Str(s@),
        Json::Array(a) => JsonV::Array(items_view(a@)),
        Json::Object(m) => JsonV::Object(members_view(m@)),
    }
}

/// The view of array items.
pub open spec fn items_view(s: Seq<Json>) -> Seq<JsonV>
    decreases s, 0int,
{
    if s.len() == 0 {
        Seq::empty()
    } else {
        seq![jview(s[0])] + items_view(s.subrange(1, s.len() as int))
    }
}

/// The view of object members.
pub open spec fn members_view(s: Seq<(String, Json)>) -> Seq<(Seq<char>, JsonV)>
    decreases s, 0int,
{
    if s.len() == 0 {
        Seq::empty()
    } else {
        seq![(s[0].0@, jview(s[0].1))] + members_view(s.subrange(1, s.len() as int))
    }
}


/// `items_view` pointwise.
pub proof fn lemma_items_view(s: Seq<Json>)
    ensures
        items_view(s).len() == s.len(),
        forall|i: int| 0 <= i < s.len() ==> #[trigger] items_view(s)[i] == jview(s[i]),
    decreases s.len(),
{
    if s.len() > 0 {
        let t = s.subrange(1, s.len() as int);
        lemma_items_view(t);
        assert forall|i: int| 0 <= i < s.len() implies #[trigger] items_view(s)[i] == jview(s[i]) by {
            if i > 0 {
                assert(t[i - 1] == s[i]);
            }
        }
    }
}

/// `members_view` pointwise.
pub proof fn lemma_members_view(s: Seq<(String, Json)>)
    ensures
        members_view(s).len() == s.len(),
        forall|i: int|
            0 <= i < s.len() ==> #[trigger] members_view(s)[i] == (s[i].0@, jview(s[i].1)),
    decreases s.len(),
{
    if s.len() > 0 {
        let t = s.subrange(1, s.len() as int);
        lemma_members_view(t);
        assert forall|i: int| 0 <= i < s.len() implies #[trigger] members_view(s)[i] == (
            s[i].0@,
            jview(s[i].1),
        ) by {
            if i > 0 {
                assert(t[i - 1] == s[i]);
            }
        }
    }
}

/// The value of member `k` (the first member with that key).
pub open spec fn member(m: Seq<(Seq<char>, JsonV)>, k: Seq<char>) -> Option<JsonV>
    decreases m.len(),
{
    if m.len() == 0 {
        None
    } else if m[0].0 == k {
        Some(m[0].1)
    } else {
        member(m.drop_first(), k)
    }
}

/// `member` finds the first member with the key.
proof fn lemma_member_skip(m: Seq<(Seq<char>, JsonV)>, k: Seq<char>, j: int)
    requires
        0 <= j <= m.len(),
        forall|i: int| 0 <= i < j ==> m[i].0 != k,
    ensures
        member(m, k) == member(m.skip(j), k),
    decreases j,
{
    if j > 0 {
        assert(m[0].0 != k);
        assert forall|i: int| 0 <= i < j - 1 implies m.drop_first()[i].0 != k by {
            assert(m.drop_first()[i] == m[i + 1]);
        }
        lemma_member_skip(m.drop_first(), k, j - 1);
        assert(m.drop_first().skip(j - 1) =~= m.skip(j));
    } else {
        assert(m.skip(0) =~= m);
    }
}

/// The member of an object's members named `key`, if any.
pub fn get_member<'a>(m: &'a Vec<(String, Json)>, key: &str) -> (r: Option<&'a Json>)
    ensures
        match r {
            Some(x) => member(members_view(m@), key@) == Some(jview(*x)),
            None => member(members_view(m@), key@) is None,
        },
{
    proof {
        lemma_members_view(m@);
    }
    let ghost mv = members_view(m@);
    let mut i: usize = 0;
    while i < m.len()
        invariant
            i <= m@.len(),
            mv == members_view(m@),
            mv.len() == m@.len(),
            forall|j: int| 0 <= j < m@.len() ==> #[trigger] mv[j] == (m@[j].0@, jview(m@[j].1)),
            forall|j: int| 0 <= j < i ==> mv[j].0 != key@,
        decreases m@.len() - i,
    {
        if text::str_eq(m[i].0.as_str(), key) {
            proof {
                lemma_member_skip(mv, key@, i as int);
                assert(mv.skip(i as int)[0] == mv[i as int]);
            }
            return Some(&m[i].1);
        }
        i = i + 1;
    }
    proof {
        lemma_member_skip(mv, key@, i as int);
        assert(mv.skip(i as int).len() == 0);
    }
    None
}

/// The string value of member `key`, if it is a string.
pub open spec fn member_str(m: Seq<(Seq<char>, JsonV)>, key: Seq<char>) -> Option<Seq<char>> {
    match member(m, key) {
        Some(JsonV::Str(s)) => Some(s),
        _ => None,
    }
}

/// The string value of member `key` of an object, if it is a string.
pub fn get_str<'a>(m: &'a Vec<(String, Json)>, key: &str) -> (r: Option<&'a String>)
    ensures
        match r {
            Some(s) => member_str(members_view(m@), key@) == Some(s@),
            None => member_str(members_view(m@), key@) is None,
        },
{
    match get_member(m, key) {
        Some(Json::Str(s)) => Some(s),
        _ => None,
    }
}

/// A deep copy of a value.
pub fn copy(v: &Json) -> (r: Json)
    ensures
        jview(r) == jview(*v),
    decreases v,
{
    match v {
        Json::Null => Json::Null,
        Json::Bool(b) => Json::Bool(*b),
        Json::Number(n) => Json::Number(n.clone()),
        Json::Str(s) => Json::Str(s.clone()),
        Json::Array(a) => {
            let mut out: Vec<Json> = Vec::new();
            let mut i: usize = 0;
            while i < a.len()
                invariant
                    i <= a@.len(),
                    out@.len() == i,
                    *v == Json::Array(*a),
                    forall|k: int| 0 <= k < i ==> jview(#[trigger] out@[k]) == jview(a@[k]),
                decreases a@.len() - i,
            {
                proof {
                    assert(decreases_to!(*v => (*v)->Array_0));
                    assert(decreases_to!(*a => a@));
                    assert(decreases_to!(a@ => a@[i as int]));
                    assert(decreases_to!(*v => a@[i as int]));
                }
                let x = copy(&a[i]);
                out.push(x);
                i = i + 1;
            }
            proof {
                lemma_items_view(a@);
                lemma_items_view(out@);
                assert(items_view(out@) =~= items_view(a@));
            }
            Json::Array(out)
        },
        Json::Object(m) => {
            let mut out: Vec<(String, Json)> = Vec::new();
            let mut i: usize = 0;
            while i < m.len()
                invariant
                    i <= m@.len(),
                    out@.len() == i,
                    *v == Json::Object(*m),
                    forall|k: int|
                        0 <= k < i ==> (#[trigger] out@[k]).0@ == m@[k].0@ && jview(out@[k].1)
                            == jview(m@[k].1),
                decreases m@.len() - i,
            {
                proof {
                    assert(decreases_to!(*v => (*v)->Object_0));
                    assert(decreases_to!(*m => m@));
                    assert(decreases_to!(m@ => m@[i as int]));
                    assert(decreases_to!(m@[i as int] => m@[i as int].1));
                    assert(decreases_to!(*v => m@[i as int].1));
                }
                let x = copy(&m[i].1);
                out.push((m[i].0.clone(), x));
                i = i + 1;
            }
            proof {
                lemma_members_view(m@);
                lemma_members_view(out@);
                assert(members_view(out@) =~= members_view(m@));
            }
            Json::Object(out)
        },
    }
}

} // verus!
