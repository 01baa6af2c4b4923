//! How a server's environment variables and headers are stored: plain
//! entries in one object, secret ones encrypted in another, with the list
//! of secret keys beside them; and the order in which they are read back.
use crate::headers::{field_lookup, fields_view, lex_lt, StrFields};
use crate::json::{self, jview, members_view, Json, JsonV};
use crate::object::{keys_sorted, object_insert};
use crate::seed::names_view;
use vstd::prelude::*;
use vstd::string::StringExecFns;

verus! {

/// A request entry: key, value (`None` keeps a saved secret, or clears a
/// plain entry), and whether it is a secret.
pub type EntryInput = (String, Option<String>, bool);

/// What goes into the encrypted object for one secret entry.
#[derive(Debug)]
pub enum EncOp {
    /// Encrypt this new value.
    Encrypt(String),
    /// Keep the saved encrypted value as it is.
    Carry(Json),
}

/// The storage of a list of entries: the plain object, the writes to the
/// encrypted object (in order; a later write of a key replaces an earlier
/// one), and the secret keys in entry order.
#[derive(Debug)]
pub struct StoragePlan {
    pub plain: StrFields,
    pub encrypted: Vec<(String, EncOp)>,
    pub secret_keys: Vec<String>,
}

/// The view of an entry.
pub open spec fn entry_v(e: EntryInput) -> (Seq<char>, Option<Seq<char>>, bool) {
    (e.0@, crate::auth::opt_view(e.1), e.2)
}

/// The plain value of key `k`: that of the last plain entry with that key
/// (an entry without a value stores the empty string).
pub open spec fn plain_value(es: Seq<(Seq<char>, Option<Seq<char>>, bool)>, k: Seq<char>) -> Option<
    Option<Seq<char>>,
>
    decreases es.len(),
{
    if es.len() == 0 {
        None
    } else {
        let (key, v, secret) = es.last();
        if !secret && key == k {
            Some(
                Some(
                    match v {
                        Some(x) => x,
                        None => Seq::empty(),
                    },
                ),
            )
        } else {
            plain_value(es.drop_last(), k)
        }
    }
}

/// The view of an encrypted-object write: `(key, is_new, value)` with the
/// new plaintext or the carried value.
pub open spec fn op_view(o: (String, EncOp)) -> (Seq<char>, bool, JsonV) {
    match o.1 {
        EncOp::Encrypt(v) => (o.0@, true, JsonV::Str(v@)),
        EncOp::Carry(j) => (o.0@, false, jview(j)),
    }
}

/// The writes to the encrypted object: a secret entry with a value is
/// encrypted; one without keeps the saved value of its key, if there is
/// one.
pub open spec fn enc_ops(
    es: Seq<(Seq<char>, Option<Seq<char>>, bool)>,
    prior: Option<Seq<(Seq<char>, JsonV)>>,
) -> Seq<(Seq<char>, bool, JsonV)>
    decreases es.len(),
{
    if es.len() == 0 {
        Seq::empty()
    } else {
        let prev = enc_ops(es.drop_last(), prior);
        let (key, v, secret) = es.last();
        if !secret {
            prev
        } else {
            match v {
                Some(x) => prev.push((key, true, JsonV::Str(x))),
                None => match prior {
                    Some(p) => match json::member(p, key) {
                        Some(old) => prev.push((key, false, old)),
                        None => prev,
                    },
                    None => prev,
                },
            }
        }
    }
}

/// The secret keys, in entry order.
pub open spec fn secret_key_list(es: Seq<(Seq<char>, Option<Seq<char>>, bool)>) -> Seq<Seq<char>>
    decreases es.len(),
{
    if es.len() == 0 {
        Seq::empty()
    } else {
        let prev = secret_key_list(es.drop_last());
        if es.last().2 {
            prev.push(es.last().0)
        } else {
            prev
        }
    }
}

/// Splits request entries for storage; `prior_encrypted` is the saved
/// encrypted object of the row being updated (`None` on create), used to
/// keep the secrets the request leaves untouched.
pub fn split_entries_for_storage(
    entries: &Vec<EntryInput>,
    prior_encrypted: Option<&Vec<(String, Json)>>,
) -> (r: StoragePlan)
    ensures
        keys_sorted(fields_view(r.plain@)),
        forall|k: Seq<char>|
            #[trigger] field_lookup(fields_view(r.plain@), k) == plain_value(
                entries@.map_values(|e: EntryInput| entry_v(e)),
                k,
            ),
        r.encrypted@.map_values(|o: (String, EncOp)| op_view(o)) == enc_ops(
            entries@.map_values(|e: EntryInput| entry_v(e)),
            match prior_encrypted {
                Some(p) => Some(members_view(p@)),
                None => None,
            },
        ),
        r.secret_keys@.map_values(|s: String| s@) == secret_key_list(
            entries@.map_values(|e: EntryInput| entry_v(e)),
        ),
{
    let ghost ev = entries@.map_values(|e: EntryInput| entry_v(e));
    let ghost pv = match prior_encrypted {
        Some(p) => Some(members_view(p@)),
        None => None::<Seq<(Seq<char>, JsonV)>>,
    };
    let mut plain: StrFields = Vec::new();
    let mut encrypted: Vec<(String, EncOp)> = Vec::new();
    let mut secret_keys: Vec<String> = Vec::new();
    let mut j: usize = 0;
    while j < entries.len()
        invariant
            j <= entries@.len(),
            ev == entries@.map_values(|e: EntryInput| entry_v(e)),
            pv == match prior_encrypted {
                Some(p) => Some(members_view(p@)),
                None => None::<Seq<(Seq<char>, JsonV)>>,
            },
            keys_sorted(fields_view(plain@)),
            forall|k: Seq<char>|
                #[trigger] field_lookup(fields_view(plain@), k) == plain_value(
                    ev.take(j as int),
                    k,
                ),
            encrypted@.map_values(|o: (String, EncOp)| op_view(o)) == enc_ops(
                ev.take(j as int),
                pv,
            ),
            secret_keys@.map_values(|s: String| s@) == secret_key_list(ev.take(j as int)),
        decreases entries@.len() - j,
    {
        assert(ev.take(j + 1).drop_last() =~= ev.take(j as int));
        assert(ev.take(j + 1).last() == entry_v(entries@[j as int]));
        let key = &entries[j].0;
        let value = &entries[j].1;
        let secret = entries[j].2;
        let ghost enc_before = encrypted@.map_values(|o: (String, EncOp)| op_view(o));
        let ghost keys_before = secret_keys@.map_values(|s: String| s@);
        if secret {
            secret_keys.push(key.clone());
            match value {
                Some(v) => {
                    encrypted.push((key.clone(), EncOp::Encrypt(v.clone())));
                    assert(encrypted@.map_values(|o: (String, EncOp)| op_view(o)) =~= enc_before.push(
                        (key@, true, JsonV::Str(v@)),
                    ));
                },
                None => {
                    match prior_encrypted {
                        Some(p) => {
                            match json::get_member(p, key.as_str()) {
                                Some(old) => {
                                    let c = json::copy(old);
                                    encrypted.push((key.clone(), EncOp::Carry(c)));
                                    assert(encrypted@.map_values(|o: (String, EncOp)| op_view(o))
                                        =~= enc_before.push((key@, false, jview(*old))));
                                },
                                None => {},
                            }
                        },
                        None => {},
                    }
                },
            }
            assert(secret_keys@.map_values(|s: String| s@) =~= keys_before.push(key@));
        } else {
            let ghost before = fields_view(plain@);
            let stored = match value {
                Some(v) => v.clone(),
                None => String::new(),
            };
            object_insert(&mut plain, key.clone(), Some(stored));
        }
        j = j + 1;
    }
    assert(ev.take(j as int) =~= ev);
    StoragePlan { plain, encrypted, secret_keys }
}

/// `plan` is the split of the entries `es` against the saved encrypted
/// members `prior` (see [`split_entries_for_storage`]).
pub open spec fn is_split_of(
    plan: StoragePlan,
    es: Seq<EntryInput>,
    prior: Option<Seq<(Seq<char>, JsonV)>>,
) -> bool {
    &&& keys_sorted(fields_view(plan.plain@))
    &&& forall|k: Seq<char>|
        #[trigger] field_lookup(fields_view(plan.plain@), k) == plain_value(
            es.map_values(|e: EntryInput| entry_v(e)),
            k,
        )
    &&& plan.encrypted@.map_values(|o: (String, EncOp)| op_view(o)) == enc_ops(
        es.map_values(|e: EntryInput| entry_v(e)),
        prior,
    )
    &&& plan.secret_keys@.map_values(|s: String| s@) == secret_key_list(
        es.map_values(|e: EntryInput| entry_v(e)),
    )
}

/// The storage columns an update writes for one kind of entries.
#[derive(Debug)]
pub enum ColumnsUpdate {
    /// The request gave entries: their split.
    Split(StoragePlan),
    /// The request left the entries out: the row's columns stay as they
    /// are, an absent plain object read as the empty object.
    Keep { plain: Json, encrypted: Json, secret_keys: Vec<String> },
}

/// The encrypted members a split carries saved secrets from: the saved
/// encrypted column when it is an object.
pub open spec fn prior_members(prior_encrypted: JsonV) -> Option<Seq<(Seq<char>, JsonV)>> {
    match prior_encrypted {
        JsonV::Object(m) => Some(m),
        _ => None,
    }
}

/// The columns an update writes for environment variables or headers:
/// when the request gives entries, their split (secrets it leaves without a
/// value keep their saved encrypted value); when it leaves them out, the
/// row's plain object (the empty object when there is none), encrypted
/// object and secret keys, as they are.
pub fn columns_for_update(
    entries: Option<&Vec<EntryInput>>,
    prior_plain: Option<Json>,
    prior_encrypted: Json,
    prior_secret_keys: Vec<String>,
) -> (r: ColumnsUpdate)
    ensures
        match entries {
            None => r matches ColumnsUpdate::Keep { plain, encrypted, secret_keys } && jview(plain)
                == match prior_plain {
                Some(p) => jview(p),
                None => JsonV::Object(Seq::empty()),
            } && jview(encrypted) == jview(prior_encrypted) && secret_keys@ == prior_secret_keys@,
            Some(es) => r matches ColumnsUpdate::Split(plan) && is_split_of(
                plan,
                es@,
                prior_members(jview(prior_encrypted)),
            ),
        },
{
    match entries {
        None => {
            let plain = match prior_plain {
                Some(p) => p,
                None => {
                    let e: Vec<(String, Json)> = Vec::new();
                    proof {
                        assert(members_view(e@) =~= Seq::<(Seq<char>, JsonV)>::empty());
                    }
                    Json::Object(e)
                },
            };
            ColumnsUpdate::Keep { plain, encrypted: prior_encrypted, secret_keys: prior_secret_keys }
        },
        Some(es) => {
            let plan = match &prior_encrypted {
                Json::Object(m) => split_entries_for_storage(es, Some(m)),
                _ => split_entries_for_storage(es, None),
            };
            ColumnsUpdate::Split(plan)
        },
    }
}

/// The plain members of a stored object that are not secret keys, each with
/// its string value (the empty string for a non-string value).
pub open spec fn readable_plain(
    plain: Seq<(Seq<char>, JsonV)>,
    secret: Seq<Seq<char>>,
    k: Seq<char>,
) -> Option<Option<Seq<char>>> {
    if secret.contains(k) {
        None
    } else {
        match json::member(plain, k) {
            Some(JsonV::Str(s)) => Some(Some(s)),
            Some(_) => Some(Some(Seq::empty())),
            None => None,
        }
    }
}

/// Whether `name` is one of `names`.
fn listed(name: &String, names: &Vec<String>) -> (r: bool)
    ensures
        r == names_view(names@).contains(name@),
{
    let ghost nv = names_view(names@);
    let mut i: usize = 0;
    while i < names.len()
        invariant
            i <= names@.len(),
            nv == names_view(names@),
            forall|j: int| 0 <= j < i ==> nv[j] != name@,
        decreases names@.len() - i,
    {
        if names[i] == *name {
            assert(nv[i as int] == name@);
            return true;
        }
        i = i + 1;
    }
    false
}

/// `member` after one more member.
proof fn lemma_member_push(s: Seq<(Seq<char>, JsonV)>, x: (Seq<char>, JsonV), k: Seq<char>)
    ensures
        json::member(s.push(x), k) == if json::member(s, k) is Some {
            json::member(s, k)
        } else if x.0 == k {
            Some(x.1)
        } else {
            None
        },
    decreases s.len(),
{
    if s.len() > 0 {
        lemma_member_push(s.drop_first(), x, k);
        assert(s.push(x).drop_first() =~= s.drop_first().push(x));
        assert(s.push(x)[0] == s[0]);
    } else {
        assert(s.push(x).drop_first() =~= Seq::<(Seq<char>, JsonV)>::empty());
        assert(json::member(Seq::<(Seq<char>, JsonV)>::empty(), k) is None);
        assert(s.push(x)[0] == x);
    }
}

/// No member named `k`: `member` finds nothing.
proof fn lemma_member_absent(s: Seq<(Seq<char>, JsonV)>, k: Seq<char>)
    requires
        forall|i: int| 0 <= i < s.len() ==> s[i].0 != k,
    ensures
        json::member(s, k) is None,
    decreases s.len(),
{
    if s.len() > 0 {
        assert forall|i: int| 0 <= i < s.len() - 1 implies s.drop_first()[i].0 != k by {
            assert(s.drop_first()[i] == s[i + 1]);
        }
        assert(s[0].0 != k);
        lemma_member_absent(s.drop_first(), k);
    }
}

/// `field_lookup` finds a key exactly when some member has it.
pub(crate) proof fn lemma_lookup_some(f: Seq<(Seq<char>, Option<Seq<char>>)>, k: Seq<char>)
    ensures
        field_lookup(f, k) is Some <==> exists|i: int| 0 <= i < f.len() && f[i].0 == k,
    decreases f.len(),
{
    if f.len() > 0 {
        lemma_lookup_some(f.drop_first(), k);
        if f[0].0 != k {
            if exists|i: int| 0 <= i < f.len() && f[i].0 == k {
                let i = choose|i: int| 0 <= i < f.len() && f[i].0 == k;
                assert(f.drop_first()[i - 1] == f[i]);
            }
            if exists|i: int| 0 <= i < f.drop_first().len() && f.drop_first()[i].0 == k {
                let i = choose|i: int| 0 <= i < f.drop_first().len() && f.drop_first()[i].0 == k;
                assert(f[i + 1] == f.drop_first()[i]);
            }
        }
    }
}

/// The members' keys are all different.
pub open spec fn unique_keys(m: Seq<(String, Json)>) -> bool {
    forall|i: int, j: int| 0 <= i < j < m.len() ==> #[trigger] m[i].0@ != #[trigger] m[j].0@
}

/// The read-back order of stored entries: the plain entries that are not
/// secret, in key order with their values; then the secret keys, sorted and
/// without repeats. `plain` is a stored object, so its keys are all
/// different.
pub fn assemble_order(plain: Option<&Vec<(String, Json)>>, secret_keys: &Vec<String>) -> (r: (
    StrFields,
    Vec<String>,
))
    requires
        plain matches Some(p) ==> unique_keys(p@),
    ensures
        keys_sorted(fields_view(r.0@)),
        forall|k: Seq<char>|
            #[trigger] field_lookup(fields_view(r.0@), k) == match plain {
                Some(p) => readable_plain(members_view(p@), names_view(secret_keys@), k),
                None => None,
            },
        forall|i: int, j: int|
            0 <= i < j < r.1@.len() ==> lex_lt(#[trigger] r.1@[i]@, #[trigger] r.1@[j]@),
        forall|k: Seq<char>|
            #[trigger] names_view(r.1@).contains(k) <==> names_view(secret_keys@).contains(k),
{
    let ghost sv = names_view(secret_keys@);
    let mut plain_out: StrFields = Vec::new();
    match plain {
        Some(p) => {
            proof {
                json::lemma_members_view(p@);
            }
            let ghost mv = members_view(p@);
            let mut i: usize = 0;
            while i < p.len()
                invariant
                    i <= p@.len(),
                    mv == members_view(p@),
                    mv.len() == p@.len(),
                    forall|q: int| 0 <= q < p@.len() ==> #[trigger] mv[q] == (p@[q].0@, jview(p@[q].1)),
                    unique_keys(p@),
                    sv == names_view(secret_keys@),
                    keys_sorted(fields_view(plain_out@)),
                    forall|k: Seq<char>|
                        #[trigger] field_lookup(fields_view(plain_out@), k) == readable_plain(
                            mv.take(i as int),
                            sv,
                            k,
                        ),
                decreases p@.len() - i,
            {
                let key = &p[i].0;
                proof {
                    assert(mv.take(i + 1) =~= mv.take(i as int).push(mv[i as int]));
                    assert forall|q: int| 0 <= q < mv.take(i as int).len() implies mv.take(
                        i as int,
                    )[q].0 != key@ by {
                        assert(mv[q].0 == p@[q].0@);
                    }
                    lemma_member_absent(mv.take(i as int), key@);
                    assert forall|k: Seq<char>| #[trigger]
                        json::member(mv.take(i + 1), k) == if k == key@ {
                            Some(mv[i as int].1)
                        } else {
                            json::member(mv.take(i as int), k)
                        } by {
                        lemma_member_push(mv.take(i as int), mv[i as int], k);
                        if k != key@ && json::member(mv.take(i as int), k) is None {
                        }
                    }
                }
                let ghost before = fields_view(plain_out@);
                if !listed(key, secret_keys) {
                    let value = match &p[i].1 {
                        Json::Str(s) => s.clone(),
                        _ => String::new(),
                    };
                    object_insert(&mut plain_out, key.clone(), Some(value));
                }
                proof {
                    assert forall|k: Seq<char>| #[trigger]
                        field_lookup(fields_view(plain_out@), k) == readable_plain(
                            mv.take(i + 1),
                            sv,
                            k,
                        ) by {
                        assert(json::member(mv.take(i + 1), k) == if k == key@ {
                            Some(mv[i as int].1)
                        } else {
                            json::member(mv.take(i as int), k)
                        });
                    }
                }
                i = i + 1;
            }
            assert(mv.take(i as int) =~= mv);
        },
        None => {},
    }
    let mut set: StrFields = Vec::new();
    let mut j: usize = 0;
    while j < secret_keys.len()
        invariant
            j <= secret_keys@.len(),
            sv == names_view(secret_keys@),
            keys_sorted(fields_view(set@)),
            forall|k: Seq<char>|
                #[trigger] field_lookup(fields_view(set@), k) is Some <==> sv.take(j as int).contains(
                    k,
                ),
        decreases secret_keys@.len() - j,
    {
        let ghost before = fields_view(set@);
        object_insert(&mut set, secret_keys[j].clone(), None);
        proof {
            assert(sv.take(j + 1) =~= sv.take(j as int).push(sv[j as int]));
            let t0 = sv.take(j as int);
            let t1 = sv.take(j + 1);
            assert forall|k: Seq<char>| #[trigger]
                field_lookup(fields_view(set@), k) is Some <==> t1.contains(k) by {
                if t1.contains(k) && k != sv[j as int] {
                    let q = choose|q: int| 0 <= q < t1.len() && #[trigger] t1[q] == k;
                    assert(t0[q] == k);
                }
                if t0.contains(k) {
                    let q = choose|q: int| 0 <= q < t0.len() && #[trigger] t0[q] == k;
                    assert(t1[q] == k);
                }
                if k == sv[j as int] {
                    assert(t1[j as int] == k);
                }
            }
        }
        j = j + 1;
    }
    assert(sv.take(j as int) =~= sv);
    let ghost setv = fields_view(set@);
    let mut sorted: Vec<String> = Vec::new();
    let mut t: usize = 0;
    while t < set.len()
        invariant
            t <= set@.len(),
            setv == fields_view(set@),
            sorted@.len() == t,
            forall|q: int| 0 <= q < t ==> #[trigger] sorted@[q]@ == setv[q].0,
        decreases set@.len() - t,
    {
        sorted.push(set[t].0.clone());
        t = t + 1;
    }
    proof {
        assert forall|a: int, b: int| 0 <= a < b < sorted@.len() implies lex_lt(
            #[trigger] sorted@[a]@,
            #[trigger] sorted@[b]@,
        ) by {
            assert(lex_lt(setv[a].0, setv[b].0));
        }
        lemma_lookup_some(setv, Seq::empty());
        assert forall|k: Seq<char>| #[trigger] names_view(sorted@).contains(k) <==> sv.contains(k) by {
            lemma_lookup_some(setv, k);
            if names_view(sorted@).contains(k) {
                let q = choose|q: int|
                    0 <= q < names_view(sorted@).len() && names_view(sorted@)[q] == k;
                assert(setv[q].0 == k);
            }
            if sv.contains(k) {
                let q = choose|q: int| 0 <= q < setv.len() && setv[q].0 == k;
                assert(names_view(sorted@)[q] == k);
            }
        }
    }
    (plain_out, sorted)
}

/// The stored form of an encrypted secret: the standard base64 text of
/// its ciphertext, which decodes back to the ciphertext.
pub fn sealed_column_value(ciphertext: &Vec<u8>) -> (r: Json)
    requires
        ciphertext@.len() <= usize::MAX / 2,
    ensures
        jview(r) == JsonV::Str(crate::codec::base64_text(ciphertext@)),
        jview(r) matches JsonV::Str(t) && crate::codec::base64_bytes(t) == Some(ciphertext@),
{
    let t = crate::codec::base64_encode(ciphertext.as_slice());
    Json::Str(t)
}

/// What the encrypted object holds for one secret key.
#[derive(Debug, PartialEq, Eq)]
pub enum SecretColumn {
    /// No string under the key: the secret reads as empty.
    Absent,
    /// A string that is not base64: the secret reads as empty.
    Undecodable,
    /// The ciphertext (or, without a storage key, the UTF-8 plaintext).
    Bytes(Vec<u8>),
}

/// The view of a [`SecretColumn`]: `None` when absent, `Some(None)` when
/// undecodable, `Some(Some(bytes))` otherwise.
pub open spec fn secret_column_view(c: SecretColumn) -> Option<Option<Seq<u8>>> {
    match c {
        SecretColumn::Absent => None,
        SecretColumn::Undecodable => Some(None),
        SecretColumn::Bytes(b) => Some(Some(b@)),
    }
}

/// How a stored secret is read back: the string under `key` in the
/// encrypted object, base64-decoded.
pub open spec fn secret_column_of(encrypted: Option<Seq<(Seq<char>, JsonV)>>, key: Seq<char>) -> Option<
    Option<Seq<u8>>,
> {
    match encrypted {
        None => None,
        Some(m) => match json::member_str(m, key) {
            None => None,
            Some(t) => Some(crate::codec::base64_bytes(t)),
        },
    }
}

/// Reads the stored form of secret `key` from the encrypted object (see
/// [`secret_column_of`]).
pub fn secret_column(encrypted: Option<&Vec<(String, Json)>>, key: &str) -> (r: SecretColumn)
    ensures
        secret_column_view(r) == secret_column_of(
            match encrypted {
                Some(m) => Some(members_view(m@)),
                None => None,
            },
            key@,
        ),
{
    let m = match encrypted {
        None => {
            return SecretColumn::Absent;
        },
        Some(m) => m,
    };
    match json::get_str(m, key) {
        None => SecretColumn::Absent,
        Some(t) => match crate::codec::base64_decode(t.as_str()) {
            Some(b) => SecretColumn::Bytes(b),
            None => SecretColumn::Undecodable,
        },
    }
}

/// A stored plain object as JSON: each string member as a JSON string,
/// any other as `null`.
pub open spec fn stored_object(f: Seq<(Seq<char>, Option<Seq<char>>)>) -> Seq<(Seq<char>, JsonV)> {
    f.map_values(
        |p: (Seq<char>, Option<Seq<char>>)|
            (
                p.0,
                match p.1 {
                    Some(s) => JsonV::Str(s),
                    None => JsonV::Null,
                },
            ),
    )
}

/// The entries' keys are all different.
pub open spec fn distinct_entry_keys(es: Seq<(Seq<char>, Option<Seq<char>>, bool)>) -> bool {
    forall|i: int, j: int| 0 <= i < j < es.len() ==> #[trigger] es[i].0 != #[trigger] es[j].0
}

/// The plain value an entry stores: its value, or the empty string.
pub open spec fn stored_plain(v: Option<Seq<char>>) -> Seq<char> {
    match v {
        Some(x) => x,
        None => Seq::empty(),
    }
}

proof fn lemma_distinct_prefix(es: Seq<(Seq<char>, Option<Seq<char>>, bool)>)
    requires
        distinct_entry_keys(es),
        es.len() > 0,
    ensures
        distinct_entry_keys(es.drop_last()),
        forall|i: int| 0 <= i < es.len() - 1 ==> #[trigger] es[i].0 != es.last().0,
{
    assert forall|i: int, j: int| 0 <= i < j < es.drop_last().len() implies #[trigger] es.drop_last()[i].0
        != #[trigger] es.drop_last()[j].0 by {
        assert(es.drop_last()[i] == es[i] && es.drop_last()[j] == es[j]);
    }
    assert forall|i: int| 0 <= i < es.len() - 1 implies #[trigger] es[i].0 != es.last().0 by {
        assert(es[i].0 != es[es.len() - 1].0);
    }
}

/// What the split keeps of each key, entry by entry.
proof fn lemma_split_by_entry(es: Seq<(Seq<char>, Option<Seq<char>>, bool)>, i: int)
    requires
        distinct_entry_keys(es),
        0 <= i < es.len(),
    ensures
        !es[i].2 ==> plain_value(es, es[i].0) == Some(Some(stored_plain(es[i].1))),
        !es[i].2 ==> !secret_key_list(es).contains(es[i].0),
        es[i].2 ==> secret_key_list(es).contains(es[i].0),
    decreases es.len(),
{
    lemma_distinct_prefix(es);
    let prev = es.drop_last();
    if i == es.len() - 1 {
        lemma_key_absent(prev, es[i].0);
        if es[i].2 {
            assert(secret_key_list(es) == secret_key_list(prev).push(es[i].0));
            assert(secret_key_list(es)[secret_key_list(prev).len() as int] == es[i].0);
        }
    } else {
        assert(prev[i] == es[i]);
        lemma_split_by_entry(prev, i);
        assert(es.last().0 != es[i].0);
        if es.last().2 {
            assert(secret_key_list(es) == secret_key_list(prev).push(es.last().0));
            if es[i].2 {
                let q = choose|q: int| 0 <= q < secret_key_list(prev).len() && secret_key_list(prev)[q] == es[i].0;
                assert(secret_key_list(es)[q] == es[i].0);
            }
        }
    }
}

/// A key no entry has is neither a plain value nor a secret key.
proof fn lemma_key_absent(es: Seq<(Seq<char>, Option<Seq<char>>, bool)>, k: Seq<char>)
    requires
        forall|i: int| 0 <= i < es.len() ==> #[trigger] es[i].0 != k,
    ensures
        plain_value(es, k) is None,
        !secret_key_list(es).contains(k),
    decreases es.len(),
{
    if es.len() > 0 {
        let prev = es.drop_last();
        assert forall|i: int| 0 <= i < prev.len() implies #[trigger] prev[i].0 != k by {
            assert(prev[i] == es[i]);
        }
        lemma_key_absent(prev, k);
        assert(es[es.len() - 1].0 != k);
        if es.last().2 {
            assert(secret_key_list(es) == secret_key_list(prev).push(es.last().0));
            if secret_key_list(es).contains(k) {
                let q = choose|q: int| 0 <= q < secret_key_list(es).len() && secret_key_list(es)[q] == k;
                if q < secret_key_list(prev).len() {
                    assert(secret_key_list(prev)[q] == k);
                }
            }
        }
    }
}

/// A member of a stored plain object, as `field_lookup` finds it.
proof fn lemma_stored_member(f: Seq<(Seq<char>, Option<Seq<char>>)>, k: Seq<char>)
    ensures
        json::member(stored_object(f), k) == match field_lookup(f, k) {
            Some(Some(s)) => Some(JsonV::Str(s)),
            Some(None) => Some(JsonV::Null),
            None => None::<JsonV>,
        },
    decreases f.len(),
{
    if f.len() > 0 {
        lemma_stored_member(f.drop_first(), k);
        assert(stored_object(f).drop_first() =~= stored_object(f.drop_first()));
        assert(stored_object(f)[0].0 == f[0].0);
    }
}

/// Stored entries read back as they were written: with all keys different,
/// a plain entry reads back under its key with its value (the empty string
/// when it had none), a secret entry reads back only as a secret key, and a
/// key no entry has reads back as nothing. `plain` is the plain object the
/// split stores (its lookups are [`plain_value`], as
/// [`split_entries_for_storage`] ensures); decrypting the secrets is the
/// crypto layer's part and is not stated here.
pub proof fn law_entries_read_back(
    es: Seq<(Seq<char>, Option<Seq<char>>, bool)>,
    plain: Seq<(Seq<char>, Option<Seq<char>>)>,
    k: Seq<char>,
)
    requires
        distinct_entry_keys(es),
        forall|q: Seq<char>| #[trigger] field_lookup(plain, q) == plain_value(es, q),
    ensures
        forall|i: int|
            0 <= i < es.len() && !(#[trigger] es[i]).2 ==> readable_plain(
                stored_object(plain),
                secret_key_list(es),
                es[i].0,
            ) == Some(Some(stored_plain(es[i].1))),
        forall|i: int|
            0 <= i < es.len() && (#[trigger] es[i]).2 ==> readable_plain(
                stored_object(plain),
                secret_key_list(es),
                es[i].0,
            ) is None && secret_key_list(es).contains(es[i].0),
        (forall|i: int| 0 <= i < es.len() ==> (#[trigger] es[i]).0 != k) ==> readable_plain(
            stored_object(plain),
            secret_key_list(es),
            k,
        ) is None && !secret_key_list(es).contains(k),
{
    assert forall|i: int| 0 <= i < es.len() && !(#[trigger] es[i]).2 implies readable_plain(
        stored_object(plain),
        secret_key_list(es),
        es[i].0,
    ) == Some(Some(stored_plain(es[i].1))) by {
        lemma_split_by_entry(es, i);
        lemma_stored_member(plain, es[i].0);
        assert(field_lookup(plain, es[i].0) == plain_value(es, es[i].0));
    }
    assert forall|i: int| 0 <= i < es.len() && (#[trigger] es[i]).2 implies readable_plain(
        stored_object(plain),
        secret_key_list(es),
        es[i].0,
    ) is None && secret_key_list(es).contains(es[i].0) by {
        lemma_split_by_entry(es, i);
    }
    if forall|i: int| 0 <= i < es.len() ==> (#[trigger] es[i]).0 != k {
        lemma_key_absent(es, k);
        lemma_stored_member(plain, k);
        assert(field_lookup(plain, k) == plain_value(es, k));
    }
}

} // verus!
