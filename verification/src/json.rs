//! A JSON-like value: the data model of style documents. Objects are
//! ordered association lists of unique string keys; numbers are integers
//! (the style format uses integer channels and sizes). The deep merge used
//! to resolve themes lives here: right-hand side wins on leaf conflicts,
//! objects merge field by field, arrays replace wholesale.

use vstd::prelude::*;

verus! {

/// The mathematical model of a JSON-like value. Object entries keep their
/// order, so a document is modeled exactly as it is stored.
#[verifier::ext_equal]
pub enum JsonV {
    Null,
    Bool(bool),
    Int(int),
    Str(Seq<char>),
    Arr(Seq<JsonV>),
    Obj(Seq<(Seq<char>, JsonV)>),
}

/// The entries of a modeled object: ordered key/value pairs.
pub type EntriesV = Seq<(Seq<char>, JsonV)>;

/// Index of the first entry with key `k`, or -1 if there is none.
pub open spec fn entries_index_of(es: EntriesV, k: Seq<char>) -> int
    decreases es.len(),
{
    if es.len() == 0 {
        -1
    } else if es[0].0 == k {
        0
    } else if entries_index_of(es.drop_first(), k) < 0 {
        -1
    } else {
        entries_index_of(es.drop_first(), k) + 1
    }
}

/// Whether some entry has key `k`.
pub open spec fn entries_has(es: EntriesV, k: Seq<char>) -> bool {
    entries_index_of(es, k) >= 0
}

/// The value of the first entry with key `k` (Null when there is none).
pub open spec fn entries_get(es: EntriesV, k: Seq<char>) -> JsonV {
    if entries_has(es, k) {
        es[entries_index_of(es, k)].1
    } else {
        JsonV::Null
    }
}

/// The field `k` of a node: defined only when the node is an object that
/// carries the key.
pub open spec fn node_field(n: JsonV, k: Seq<char>) -> Option<JsonV> {
    match n {
        JsonV::Obj(es) => if entries_has(es, k) {
            Some(entries_get(es, k))
        } else {
            None
        },
        _ => None,
    }
}

/// No two entries share a key.
pub open spec fn keys_unique(es: EntriesV) -> bool {
    forall|i: int, j: int| 0 <= i < j < es.len() ==> es[i].0 != es[j].0
}

/// Well-formedness: every object in the tree has unique keys.
pub open spec fn wf_json(v: JsonV) -> bool
    decreases v,
{
    match v {
        JsonV::Arr(xs) => forall|i: int| 0 <= i < xs.len() ==> wf_json(#[trigger] xs[i]),
        JsonV::Obj(es) => keys_unique(es) && forall|i: int|
            0 <= i < es.len() ==> wf_json((#[trigger] es[i]).1),
        _ => true,
    }
}

/// What `entries_index_of` finds: the first entry with the key, if any.
pub proof fn lemma_entries_index_of(es: EntriesV, k: Seq<char>)
    ensures
        entries_has(es, k) ==> 0 <= entries_index_of(es, k) < es.len(),
        entries_has(es, k) ==> es[entries_index_of(es, k)].0 == k,
        entries_has(es, k) ==> forall|j: int| 0 <= j < entries_index_of(es, k) ==> es[j].0 != k,
        !entries_has(es, k) ==> forall|j: int| 0 <= j < es.len() ==> es[j].0 != k,
    decreases es.len(),
{
    if es.len() > 0 && es[0].0 != k {
        lemma_entries_index_of(es.drop_first(), k);
        assert(forall|j: int| 1 <= j < es.len() ==> es[j] == es.drop_first()[j - 1]);
    }
}

/// Deep merge of two modeled values: when both are objects they merge entry
/// by entry (the right side's entries are folded into the left side's, in
/// the right side's order); otherwise the right side replaces the left
/// wholesale — in particular arrays and leaves are replaced, never merged.
pub open spec fn merged(a: JsonV, b: JsonV) -> JsonV
    decreases b, 0int,
{
    match (a, b) {
        (JsonV::Obj(ea), JsonV::Obj(eb)) => JsonV::Obj(merged_entries(ea, eb, 0)),
        _ => b,
    }
}

/// Folds the entries of `eb` from index `i` on into `ea`: a key already
/// present has its value deep-merged in place, a new key is appended.
pub open spec fn merged_entries(ea: EntriesV, eb: EntriesV, i: int) -> EntriesV
    decreases eb, eb.len() - i,
{
    if i < 0 || i >= eb.len() {
        ea
    } else {
        let k = eb[i].0;
        let v = eb[i].1;
        let ea2 = if entries_has(ea, k) {
            ea.update(entries_index_of(ea, k), (k, merged(entries_get(ea, k), v)))
        } else {
            ea.push((k, v))
        };
        merged_entries(ea2, eb, i + 1)
    }
}

/// Two entry sequences with the same keys in the same order index every
/// key at the same place.
proof fn lemma_same_keys_same_index_of(es1: EntriesV, es2: EntriesV, k: Seq<char>)
    requires
        es1.len() == es2.len(),
        forall|j: int| 0 <= j < es1.len() ==> (#[trigger] es1[j]).0 == es2[j].0,
    ensures
        entries_index_of(es1, k) == entries_index_of(es2, k),
    decreases es1.len(),
{
    if es1.len() > 0 {
        lemma_same_keys_same_index_of(es1.drop_first(), es2.drop_first(), k);
    }
}

/// Updating the entry of key `k` in place keeps every index, makes `k`'s
/// value the new one, and leaves every other key's value alone.
proof fn lemma_entries_update_get(es: EntriesV, idx: int, v: JsonV, k: Seq<char>)
    requires
        0 <= idx < es.len(),
        idx == entries_index_of(es, es[idx].0),
    ensures
        entries_has(es.update(idx, (es[idx].0, v)), k) == entries_has(es, k),
        k == es[idx].0 ==> entries_get(es.update(idx, (es[idx].0, v)), k) == v,
        k != es[idx].0 && entries_has(es, k) ==> entries_get(es.update(idx, (es[idx].0, v)), k)
            == entries_get(es, k),
{
    let es2 = es.update(idx, (es[idx].0, v));
    lemma_same_keys_same_index_of(es, es2, k);
    lemma_entries_index_of(es, k);
    lemma_entries_index_of(es2, k);
    if k == es[idx].0 {
        lemma_same_keys_same_index_of(es, es2, es[idx].0);
    }
}

/// Appending an entry leaves every present key alone; an absent key is
/// found at the end exactly when the appended entry carries it.
proof fn lemma_entries_push_get(es: EntriesV, p: (Seq<char>, JsonV), k: Seq<char>)
    ensures
        entries_has(es, k) ==> entries_index_of(es.push(p), k) == entries_index_of(es, k)
            && entries_get(es.push(p), k) == entries_get(es, k),
        !entries_has(es, k) && p.0 == k ==> entries_has(es.push(p), k) && entries_get(
            es.push(p),
            k,
        ) == p.1,
        !entries_has(es, k) && p.0 != k ==> !entries_has(es.push(p), k),
    decreases es.len(),
{
    if es.len() == 0 {
        assert(es.push(p).drop_first() =~= Seq::empty());
        assert(entries_index_of(Seq::empty(), k) == -1);
    } else {
        lemma_entries_push_get(es.drop_first(), p, k);
        assert(es.push(p).drop_first() =~= es.drop_first().push(p));
        lemma_entries_index_of(es, k);
        lemma_entries_index_of(es.push(p), k);
    }
}

/// Keys untouched by the remaining fold steps keep their presence and
/// value.
proof fn lemma_merged_entries_frame(ea: EntriesV, eb: EntriesV, i: int, k: Seq<char>)
    requires
        forall|j: int| i <= j < eb.len() ==> (#[trigger] eb[j]).0 != k,
    ensures
        entries_has(merged_entries(ea, eb, i), k) == entries_has(ea, k),
        entries_get(merged_entries(ea, eb, i), k) == entries_get(ea, k),
    decreases eb.len() - i,
{
    if 0 <= i < eb.len() {
        let kk = eb[i].0;
        let v = eb[i].1;
        lemma_entries_index_of(ea, kk);
        let ea2 = if entries_has(ea, kk) {
            ea.update(entries_index_of(ea, kk), (kk, merged(entries_get(ea, kk), v)))
        } else {
            ea.push((kk, v))
        };
        if entries_has(ea, kk) {
            lemma_entries_update_get(ea, entries_index_of(ea, kk), merged(entries_get(ea, kk), v), k);
        } else {
            lemma_entries_push_get(ea, (kk, v), k);
        }
        lemma_merged_entries_frame(ea2, eb, i + 1, k);
    }
}

/// What the fold from step `i` does to the key `k` when `k` occurs exactly
/// once in the remaining steps, at index `m`.
proof fn lemma_merged_entries_hit(ea: EntriesV, eb: EntriesV, i: int, m: int, k: Seq<char>)
    requires
        0 <= i <= m < eb.len(),
        eb[m].0 == k,
        forall|j: int| i <= j < eb.len() && j != m ==> (#[trigger] eb[j]).0 != k,
    ensures
        entries_has(merged_entries(ea, eb, i), k),
        entries_get(merged_entries(ea, eb, i), k) == if entries_has(ea, k) {
            merged(entries_get(ea, k), eb[m].1)
        } else {
            eb[m].1
        },
    decreases eb.len() - i,
{
    let kk = eb[i].0;
    let v = eb[i].1;
    lemma_entries_index_of(ea, kk);
    let ea2 = if entries_has(ea, kk) {
        ea.update(entries_index_of(ea, kk), (kk, merged(entries_get(ea, kk), v)))
    } else {
        ea.push((kk, v))
    };
    if i == m {
        if entries_has(ea, kk) {
            lemma_entries_update_get(ea, entries_index_of(ea, kk), merged(entries_get(ea, kk), v), k);
        } else {
            lemma_entries_push_get(ea, (kk, v), k);
        }
        lemma_merged_entries_frame(ea2, eb, i + 1, k);
    } else {
        if entries_has(ea, kk) {
            lemma_entries_update_get(ea, entries_index_of(ea, kk), merged(entries_get(ea, kk), v), k);
        } else {
            lemma_entries_push_get(ea, (kk, v), k);
        }
        lemma_merged_entries_hit(ea2, eb, i + 1, m, k);
    }
}

/// Lookup in a fold result, for a right-hand side with unique keys: a key
/// of the right side gets the right side's value, deep-merged into the
/// left side's where the key is shared; any other key keeps the left
/// side's value.
pub proof fn lemma_merged_entries_lookup(ea: EntriesV, eb: EntriesV, k: Seq<char>)
    requires
        keys_unique(eb),
    ensures
        entries_has(merged_entries(ea, eb, 0), k) <==> (entries_has(ea, k) || entries_has(eb, k)),
        entries_has(eb, k) ==> entries_get(merged_entries(ea, eb, 0), k) == if entries_has(ea, k) {
            merged(entries_get(ea, k), entries_get(eb, k))
        } else {
            entries_get(eb, k)
        },
        !entries_has(eb, k) ==> entries_get(merged_entries(ea, eb, 0), k) == entries_get(ea, k),
{
    lemma_entries_index_of(eb, k);
    if entries_has(eb, k) {
        let m = entries_index_of(eb, k);
        assert(forall|j: int| 0 <= j < eb.len() && j != m ==> (#[trigger] eb[j]).0 != k);
        lemma_merged_entries_hit(ea, eb, 0, m, k);
    } else {
        lemma_merged_entries_frame(ea, eb, 0, k);
    }
}

/// Deep-merge is right-biased: every key of the right-hand object ends up
/// with the right-hand value (deep-merged into the left-hand value where
/// the key is shared), and keys only on the left keep the left-hand value.
pub proof fn lemma_merged_right_biased(a: JsonV, b: JsonV, k: Seq<char>)
    requires
        a is Obj,
        b is Obj,
        keys_unique(b->Obj_0),
    ensures
        node_field(merged(a, b), k) is Some <==> (node_field(a, k) is Some || node_field(b, k)
            is Some),
        node_field(b, k) is Some ==> node_field(merged(a, b), k) == Some(
            match node_field(a, k) {
                Some(av) => merged(av, node_field(b, k)->0),
                None => node_field(b, k)->0,
            },
        ),
        node_field(b, k) is None && node_field(a, k) is Some ==> node_field(merged(a, b), k)
            == node_field(a, k),
{
    lemma_merged_entries_lookup(a->Obj_0, b->Obj_0, k);
}

/// Folding a sequence of entries with unique keys into an empty object
/// reproduces it exactly.
proof fn lemma_merged_entries_into_empty(acc: EntriesV, ed: EntriesV, i: int)
    requires
        keys_unique(ed),
        0 <= i <= ed.len(),
        acc == ed.subrange(0, i),
    ensures
        merged_entries(acc, ed, i) == ed,
    decreases ed.len() - i,
{
    if i < ed.len() {
        let k = ed[i].0;
        lemma_entries_index_of(acc, k);
        assert(!entries_has(acc, k));
        assert(acc.push((k, ed[i].1)) =~= ed.subrange(0, i + 1));
        lemma_merged_entries_into_empty(acc.push((k, ed[i].1)), ed, i + 1);
    } else {
        assert(acc =~= ed);
    }
}

/// Merging a well-formed object onto an empty object yields it unchanged.
pub proof fn lemma_merged_empty_left(d: JsonV)
    requires
        d is Obj,
        keys_unique(d->Obj_0),
    ensures
        merged(JsonV::Obj(Seq::empty()), d) == d,
{
    assert(Seq::<(Seq<char>, JsonV)>::empty() =~= d->Obj_0.subrange(0, 0));
    lemma_merged_entries_into_empty(Seq::empty(), d->Obj_0, 0);
}

/// Deep-merge is idempotent: merging a well-formed tree onto itself yields
/// the same tree.
pub proof fn lemma_merged_idempotent(t: JsonV)
    requires
        wf_json(t),
    ensures
        merged(t, t) == t,
    decreases t, 0int,
{
    match t {
        JsonV::Obj(es) => {
            assert(es == t->Obj_0);
            assert(keys_unique(t->Obj_0));
            assert forall|j: int| 0 <= j < t->Obj_0.len() implies wf_json(
                (#[trigger] t->Obj_0[j]).1,
            ) by {
                assert(wf_json(t));
            }
            lemma_merged_entries_idempotent(es, 0);
        },
        _ => {},
    }
}

/// Each fold step of a well-formed object onto itself leaves it unchanged.
proof fn lemma_merged_entries_idempotent(es: EntriesV, i: int)
    requires
        keys_unique(es),
        forall|j: int| 0 <= j < es.len() ==> wf_json((#[trigger] es[j]).1),
    ensures
        merged_entries(es, es, i) == es,
    decreases es, es.len() - i,
{
    if 0 <= i < es.len() {
        let k = es[i].0;
        lemma_entries_index_of(es, k);
        assert(entries_has(es, k));
        let idx = entries_index_of(es, k);
        assert(idx == i);
        lemma_merged_idempotent(es[i].1);
        assert(es.update(i, (k, merged(entries_get(es, k), es[i].1))) =~= es);
        lemma_merged_entries_idempotent(es, i + 1);
    }
}

/// A JSON-like value, as stored. Objects are ordered association lists;
/// builders are expected to keep keys unique (see [`wf_json`]).
#[derive(Debug, PartialEq, Eq)]
pub enum Json {
    Null,
    Bool(bool),
    Int(i64),
    Str(String),
    Arr(Vec<Json>),
    Obj(Vec<(String, Json)>),
}

/// The model of a stored value.
pub open spec fn jview(j: Json) -> JsonV
    decreases j, 0int,
{
    match j {
        Json::Null => JsonV::Null,
        Json::Bool(x) => JsonV::Bool(x),
        Json::Int(x) => JsonV::Int(x as int),
        Json::Str(s) => JsonV::Str(s@),
        Json::Arr(xs) => JsonV::Arr(arr_view(xs@)),
        Json::Obj(es) => JsonV::Obj(entries_view(es@)),
    }
}

/// The models of stored array items.
pub open spec fn arr_view(xs: Seq<Json>) -> Seq<JsonV>
    decreases xs, 0int,
{
    Seq::new(
        xs.len(),
        |i: int|
            if 0 <= i < xs.len() {
                jview(xs[i])
            } else {
                JsonV::Null
            },
    )
}

/// The models of stored object entries.
pub open spec fn entries_view(es: Seq<(String, Json)>) -> EntriesV
    decreases es, 0int,
{
    Seq::new(
        es.len(),
        |i: int|
            if 0 <= i < es.len() {
                (es[i].0@, jview(es[i].1))
            } else {
                (Seq::empty(), JsonV::Null)
            },
    )
}

impl Json {
    /// A deep copy: the copy has the same model as the original.
    pub fn deep_clone(&self) -> (r: Json)
        ensures
            jview(r) == jview(*self),
        decreases *self,
    {
        match self {
            Json::Null => Json::Null,
            Json::Bool(x) => Json::Bool(*x),
            Json::Int(x) => Json::Int(*x),
            Json::Str(s) => Json::Str(s.clone()),
            Json::Arr(xs) => {
                let items = clone_items(xs);
                proof {
                    assert(arr_view(items@) =~= arr_view(xs@));
                }
                Json::Arr(items)
            },
            Json::Obj(es) => {
                let entries = clone_entries(es);
                proof {
                    assert(entries_view(entries@) =~= entries_view(es@));
                }
                Json::Obj(entries)
            },
        }
    }
}

/// Deep copy of array items.
fn clone_items(xs: &Vec<Json>) -> (r: Vec<Json>)
    ensures
        r@.len() == xs@.len(),
        forall|i: int| 0 <= i < xs@.len() ==> jview(#[trigger] r@[i]) == jview(xs@[i]),
    decreases xs,
{
    let mut out: Vec<Json> = Vec::new();
    let mut i: usize = 0;
    while i < xs.len()
        invariant
            i <= xs@.len(),
            out@.len() == i as int,
            forall|j: int| 0 <= j < i ==> jview(#[trigger] out@[j]) == jview(xs@[j]),
        decreases xs@.len() - i,
    {
        let c = xs[i].deep_clone();
        out.push(c);
        i = i + 1;
    }
    out
}

/// Deep copy of object entries.
fn clone_entries(es: &Vec<(String, Json)>) -> (r: Vec<(String, Json)>)
    ensures
        r@.len() == es@.len(),
        forall|i: int| 0 <= i < es@.len() ==> (#[trigger] r@[i]).0@ == es@[i].0@
            && jview(r@[i].1) == jview(es@[i].1),
    decreases es,
{
    let mut out: Vec<(String, Json)> = Vec::new();
    let mut i: usize = 0;
    while i < es.len()
        invariant
            i <= es@.len(),
            out@.len() == i as int,
            forall|j: int| 0 <= j < i ==> (#[trigger] out@[j]).0@ == es@[j].0@
                && jview(out@[j].1) == jview(es@[j].1),
        decreases es@.len() - i,
    {
        let key = es[i].0.clone();
        let val = es[i].1.deep_clone();
        out.push((key, val));
        i = i + 1;
    }
    out
}

/// Scan for the first entry whose key is `k`.
pub(crate) fn index_of_key(es: &Vec<(String, Json)>, k: &String) -> (r: Option<usize>)
    ensures
        match r {
            Some(idx) => entries_has(entries_view(es@), k@) && idx == entries_index_of(
                entries_view(es@),
                k@,
            ),
            None => !entries_has(entries_view(es@), k@),
        },
{
    proof {
        lemma_entries_index_of(entries_view(es@), k@);
    }
    let mut i: usize = 0;
    while i < es.len()
        invariant
            i <= es@.len(),
            forall|j: int| 0 <= j < i ==> (#[trigger] entries_view(es@)[j]).0 != k@,
        decreases es@.len() - i,
    {
        if es[i].0 == *k {
            proof {
                let ev = entries_view(es@);
                assert(ev[i as int].0 == k@);
                lemma_entries_index_of(ev, k@);
                assert(entries_has(ev, k@));
                assert(entries_index_of(ev, k@) == i as int);
            }
            return Some(i);
        }
        i = i + 1;
    }
    proof {
        assert(!entries_has(entries_view(es@), k@));
    }
    None
}

/// One folding step of the merge: the entry `(k, v)` of the right-hand
/// object is folded into `acc`.
fn merge_entry_into(acc: &mut Vec<(String, Json)>, k: &String, v: &Json)
    ensures
        entries_view(final(acc)@) == ({
            let ea = entries_view(old(acc)@);
            if entries_has(ea, k@) {
                ea.update(entries_index_of(ea, k@), (k@, merged(entries_get(ea, k@), jview(*v))))
            } else {
                ea.push((k@, jview(*v)))
            }
        }),
    decreases *v, 1int,
{
    let idx_opt = index_of_key(acc, k);
    match idx_opt {
        Some(idx) => {
            proof {
                lemma_entries_index_of(entries_view(old(acc)@), k@);
            }
            let mv = merged_of(&acc[idx].1, v);
            let kk = k.clone();
            acc[idx] = (kk, mv);
            proof {
                let ea = entries_view(old(acc)@);
                assert(entries_view(final(acc)@) =~= ea.update(
                    entries_index_of(ea, k@),
                    (k@, merged(entries_get(ea, k@), jview(*v))),
                ));
            }
        },
        None => {
            let kk = k.clone();
            let vv = v.deep_clone();
            acc.push((kk, vv));
            proof {
                let ea = entries_view(old(acc)@);
                assert(entries_view(final(acc)@) =~= ea.push((k@, jview(*v))));
            }
        },
    }
}

/// A fresh value holding the deep merge of `a` and `b`.
#[verifier::loop_isolation(false)]
fn merged_of(a: &Json, b: &Json) -> (r: Json)
    ensures
        jview(r) == merged(jview(*a), jview(*b)),
    decreases *b, 0int,
{
    match (a, b) {
        (Json::Obj(ea), Json::Obj(eb)) => {
            let mut acc = clone_entries(ea);
            proof {
                assert(entries_view(acc@) =~= entries_view(ea@));
            }
            let mut i: usize = 0;
            while i < eb.len()
                invariant
                    i <= eb@.len(),
                    merged_entries(entries_view(acc@), entries_view(eb@), i as int)
                        == merged_entries(entries_view(ea@), entries_view(eb@), 0),
                decreases eb@.len() - i,
            {
                proof {
                    assert(decreases_to!(*b => b->Obj_0));
                    assert(b->Obj_0 == *eb);
                    assert(decreases_to!(*eb => eb@));
                    assert(decreases_to!(eb@ => eb@[i as int]));
                    assert(decreases_to!(eb@[i as int] => eb@[i as int].1));
                }
                merge_entry_into(&mut acc, &eb[i].0, &eb[i].1);
                proof {
                    let ebv = entries_view(eb@);
                    assert(ebv[i as int] == (eb@[i as int].0@, jview(eb@[i as int].1)));
                }
                i = i + 1;
            }
            Json::Obj(acc)
        },
        _ => {
            let r = b.deep_clone();
            r
        },
    }
}

/// Deep-merges `b` into `a`: leaf values and arrays are overwritten by
/// `b`'s, object fields merge recursively, and `b` wins on conflicts.
pub fn merge_json_values(a: &mut Json, b: &Json)
    ensures
        jview(*final(a)) == merged(jview(*old(a)), jview(*b)),
{
    let r = merged_of(a, b);
    *a = r;
}

impl Json {
    /// The field `key` of an object, if present.
    pub fn get<'a>(&'a self, key: &String) -> (r: Option<&'a Json>)
        ensures
            match r {
                Some(v) => node_field(jview(*self), key@) == Some(jview(*v)),
                None => node_field(jview(*self), key@) is None,
            },
    {
        match self {
            Json::Obj(es) => {
                let idx_opt = index_of_key(es, key);
                match idx_opt {
                    Some(idx) => {
                        proof {
                            lemma_entries_index_of(entries_view(es@), key@);
                        }
                        Some(&es[idx].1)
                    },
                    None => None,
                }
            },
            _ => None,
        }
    }
}

} // verus!
