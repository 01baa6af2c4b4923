//! JSON objects built by the library, kept as their members in key order
//! with no key twice, the way a `serde_json::Map` iterates them.
use crate::headers::{field_lookup, fields_view, lex_lt, StrFields};
use crate::text;
use vstd::prelude::*;

verus! {

/// The members' keys are strictly increasing.
pub open spec fn keys_sorted(f: Seq<(Seq<char>, Option<Seq<char>>)>) -> bool {
    forall|i: int, j: int| 0 <= i < j < f.len() ==> lex_lt(#[trigger] f[i].0, #[trigger] f[j].0)
}

/// The member named `k` is the one at `i`, the first with that key.
proof fn lemma_lookup_at(f: Seq<(Seq<char>, Option<Seq<char>>)>, k: Seq<char>, i: int)
    requires
        0 <= i < f.len(),
        f[i].0 == k,
        forall|j: int| 0 <= j < i ==> f[j].0 != k,
    ensures
        field_lookup(f, k) == Some(f[i].1),
    decreases i,
{
    if i > 0 {
        assert forall|j: int| 0 <= j < i - 1 implies f.drop_first()[j].0 != k by {
            assert(f.drop_first()[j] == f[j + 1]);
        }
        assert(f[0].0 != k);
        lemma_lookup_at(f.drop_first(), k, i - 1);
    }
}

/// No member is named `k`.
proof fn lemma_lookup_none(f: Seq<(Seq<char>, Option<Seq<char>>)>, k: Seq<char>)
    requires
        forall|j: int| 0 <= j < f.len() ==> f[j].0 != k,
    ensures
        field_lookup(f, k) is None,
    decreases f.len(),
{
    if f.len() > 0 {
        assert forall|j: int| 0 <= j < f.len() - 1 implies f.drop_first()[j].0 != k by {
            assert(f.drop_first()[j] == f[j + 1]);
        }
        assert(f[0].0 != k);
        lemma_lookup_none(f.drop_first(), k);
    }
}

/// Two member lists with the same keys at the same places, and the same
/// values except at `p`, agree on every key but the one at `p`.
proof fn lemma_lookup_same_except(
    f: Seq<(Seq<char>, Option<Seq<char>>)>,
    g: Seq<(Seq<char>, Option<Seq<char>>)>,
    p: int,
    k: Seq<char>,
)
    requires
        f.len() == g.len(),
        0 <= p < f.len(),
        forall|j: int| 0 <= j < f.len() ==> f[j].0 == g[j].0,
        forall|j: int| 0 <= j < f.len() && j != p ==> f[j] == g[j],
        f[p].0 != k,
    ensures
        field_lookup(f, k) == field_lookup(g, k),
    decreases f.len(),
{
    if f.len() > 0 {
        if f[0].0 != k {
            if p > 0 {
                lemma_lookup_same_except(f.drop_first(), g.drop_first(), p - 1, k);
            } else {
                assert(f.drop_first() =~= g.drop_first()) by {
                    assert forall|j: int| 0 <= j < f.len() - 1 implies f.drop_first()[j]
                        == g.drop_first()[j] by {
                        assert(f[j + 1] == g[j + 1]);
                    }
                }
            }
        } else {
            assert(p != 0);
            assert(f[0] == g[0]);
        }
    }
}

/// Inserting a member at `i` before all members with a greater key, after
/// all with a smaller one, adds key `k` and leaves every other key as it was.
proof fn lemma_lookup_insert(
    f: Seq<(Seq<char>, Option<Seq<char>>)>,
    i: int,
    m: (Seq<char>, Option<Seq<char>>),
    k: Seq<char>,
)
    requires
        0 <= i <= f.len(),
        forall|j: int| 0 <= j < f.len() ==> f[j].0 != m.0,
    ensures
        field_lookup(f.insert(i, m), k) == if k == m.0 {
            Some(m.1)
        } else {
            field_lookup(f, k)
        },
    decreases f.len(),
{
    let g = f.insert(i, m);
    if k == m.0 {
        lemma_lookup_at(g, k, i);
    } else if i == 0 {
        assert(g.drop_first() =~= f);
    } else {
        assert(g[0] == f[0]);
        if f[0].0 != k {
            assert forall|j: int| 0 <= j < f.len() - 1 implies f.drop_first()[j].0 != m.0 by {
                assert(f.drop_first()[j] == f[j + 1]);
            }
            lemma_lookup_insert(f.drop_first(), i - 1, m, k);
            assert(g.drop_first() =~= f.drop_first().insert(i - 1, m));
        }
    }
}

/// Sets member `key` to `value` in an object kept in key order: an
/// existing member keeps its place and takes the new value; a new member
/// goes where its key sorts (`serde_json::Map::insert`).
pub fn object_insert(f: &mut StrFields, key: String, value: Option<String>)
    requires
        keys_sorted(fields_view(old(f)@)),
    ensures
        keys_sorted(fields_view(final(f)@)),
        forall|k: Seq<char>|
            #[trigger] field_lookup(fields_view(final(f)@), k) == if k == key@ {
                Some(
                    match value {
                        Some(v) => Some(v@),
                        None => None,
                    },
                )
            } else {
                field_lookup(fields_view(old(f)@), k)
            },
{
    let ghost fv = fields_view(f@);
    let ghost m = (key@, crate::auth::opt_view(value));
    let mut i: usize = 0;
    let mut eq = false;
    while i < f.len()
        invariant_except_break
            !eq,
        invariant
            i <= f@.len(),
            fv == fields_view(f@),
            fv.len() == f@.len(),
            forall|j: int| 0 <= j < i ==> lex_lt(#[trigger] fv[j].0, key@),
        ensures
            i <= f@.len(),
            fv == fields_view(f@),
            fv.len() == f@.len(),
            forall|j: int| 0 <= j < i ==> lex_lt(#[trigger] fv[j].0, key@),
            eq ==> i < f@.len() && fv[i as int].0 == key@,
            !eq ==> i == f@.len() || (!lex_lt(fv[i as int].0, key@) && fv[i as int].0 != key@),
        decreases f@.len() - i,
    {
        assert(fv[i as int] == crate::headers::field_view(f@[i as int]));
        if crate::headers::str_lex_lt(f[i].0.as_str(), key.as_str()) {
            i = i + 1;
        } else {
            eq = f[i].0 == key;
            break;
        }
    }
    proof {
        assert forall|j: int| 0 <= j < i implies fv[j].0 != key@ by {
            crate::headers::lemma_lex_total(fv[j].0, key@);
        }
        if i < fv.len() {
            crate::headers::lemma_lex_total(fv[i as int].0, key@);
        }
    }
    if eq {
        proof {
            assert forall|j: int| i < j < fv.len() implies fv[j].0 != key@ by {
                assert(lex_lt(fv[i as int].0, fv[j].0));
                crate::headers::lemma_lex_total(key@, key@);
            }
        }
        f.set(i, (key, value));
        proof {
            let g = fields_view(f@);
            assert(g =~= fv.update(i as int, m));
            assert forall|k: Seq<char>| #[trigger]
                field_lookup(g, k) == if k == m.0 {
                    Some(m.1)
                } else {
                    field_lookup(fv, k)
                } by {
                if k == m.0 {
                    lemma_lookup_at(g, k, i as int);
                } else {
                    lemma_lookup_same_except(g, fv, i as int, k);
                }
            }
        }
    } else {
        proof {
            assert forall|j: int| i <= j < fv.len() implies lex_lt(key@, #[trigger] fv[j].0) by {
                crate::headers::lemma_lex_total(fv[i as int].0, key@);
                if j > i {
                    crate::headers::lemma_lex_trans(key@, fv[i as int].0, fv[j].0);
                }
            }
        }
        f.insert(i, (key, value));
        proof {
            let g = fields_view(f@);
            assert(g =~= fv.insert(i as int, m));
            assert forall|j: int| 0 <= j < fv.len() implies fv[j].0 != m.0 by {
                crate::headers::lemma_lex_total(fv[j].0, m.0);
            }
            assert forall|k: Seq<char>| #[trigger]
                field_lookup(g, k) == if k == m.0 {
                    Some(m.1)
                } else {
                    field_lookup(fv, k)
                } by {
                lemma_lookup_insert(fv, i as int, m, k);
            }
            assert forall|a: int, b: int| 0 <= a < b < g.len() implies lex_lt(
                #[trigger] g[a].0,
                #[trigger] g[b].0,
            ) by {
                if b < i {
                } else if b == i {
                } else if a < i {
                    crate::headers::lemma_lex_trans(g[a].0, key@, g[b].0);
                } else if a == i {
                } else {
                }
            }
        }
    }
}

} // verus!
