use vstd::prelude::*;
use vstd::string::StringExecFns;

use crate::value::{Value, ValueM, vmodel, fmodels_of, lemma_fmodels_of, lemma_fmodels_of_push};
use crate::vm::VmError;

verus! {

broadcast use vstd::std_specs::vec::group_vec_axioms;

/// The binding for a key in an association sequence; with the keys
/// unique it is the binding, scanned here from the end.
pub open spec fn assoc_lookup(s: Seq<(Seq<char>, ValueM)>, key: Seq<char>) -> Option<
    ValueM,
>
    decreases s,
{
    if s.len() == 0 {
        None
    } else if s.last().0 == key {
        Some(s.last().1)
    } else {
        assoc_lookup(s.take(s.len() - 1), key)
    }
}

/// How many entries carry the key.
pub open spec fn count_key(s: Seq<(Seq<char>, ValueM)>, key: Seq<char>) -> nat
    decreases s,
{
    if s.len() == 0 {
        0
    } else {
        count_key(s.take(s.len() - 1), key) + if s.last().0 == key { 1nat } else { 0nat }
    }
}

/// Every key appears at most once.
pub open spec fn keys_distinct(s: Seq<(Seq<char>, ValueM)>) -> bool {
    forall|k: Seq<char>| count_key(s, k) <= 1
}

/// A map value: a `Table` with at most one entry per key.
pub open spec fn is_table(m: ValueM) -> bool {
    m matches ValueM::Table(fs) && keys_distinct(fs)
}

/// The entries of a table model.
pub open spec fn table_entries(m: ValueM) -> Seq<(Seq<char>, ValueM)> {
    match m {
        ValueM::Table(fs) => fs,
        _ => Seq::<(Seq<char>, ValueM)>::empty(),
    }
}

/// The entries with the given key left out, order kept.
pub open spec fn drop_key(s: Seq<(Seq<char>, ValueM)>, key: Seq<char>) -> Seq<
    (Seq<char>, ValueM),
>
    decreases s,
{
    if s.len() == 0 {
        Seq::<(Seq<char>, ValueM)>::empty()
    } else if s.last().0 == key {
        drop_key(s.take(s.len() - 1), key)
    } else {
        drop_key(s.take(s.len() - 1), key).push(s.last())
    }
}

/// Dropping a key removes its binding, keeps every other binding, and
/// never increases any key's count.
pub proof fn lemma_drop_key(s: Seq<(Seq<char>, ValueM)>, key: Seq<char>)
    ensures
        assoc_lookup(drop_key(s, key), key) is None,
        forall|other: Seq<char>| other != key ==> #[trigger] assoc_lookup(
            drop_key(s, key),
            other,
        ) == assoc_lookup(s, other),
        forall|k: Seq<char>| #[trigger] count_key(drop_key(s, key), k) <= count_key(s, k),
        count_key(drop_key(s, key), key) == 0,
    decreases s,
{
    if s.len() > 0 {
        lemma_drop_key(s.take(s.len() - 1), key);
        if s.last().0 == key {
        } else {
            let d = drop_key(s.take(s.len() - 1), key).push(s.last());
            assert(d.last() == s.last());
            assert(d.take(d.len() - 1) =~= drop_key(s.take(s.len() - 1), key));
        }
    }
}

/// A copy of the entries, with the given key's entries left out.
fn filter_entries(entries: &Vec<(String, Value)>, key: &str) -> (r: Vec<(String, Value)>)
    ensures
        fmodels_of(r@) == drop_key(fmodels_of(entries@), key@),
{
    proof {
        lemma_fmodels_of(entries@);
    }
    let mut out: Vec<(String, Value)> = Vec::new();
    let mut i: usize = 0;
    proof {
        assert(fmodels_of(out@) =~= Seq::<(Seq<char>, ValueM)>::empty());
        assert(fmodels_of(entries@.take(0)) =~= Seq::<(Seq<char>, ValueM)>::empty());
        assert(drop_key(fmodels_of(entries@.take(0)), key@)
            =~= Seq::<(Seq<char>, ValueM)>::empty());
    }
    while i < entries.len()
        invariant
            i <= entries@.len(),
            fmodels_of(entries@).len() == entries@.len(),
            forall|q: int| 0 <= q < entries@.len() ==> fmodels_of(entries@)[q]
                == ((#[trigger] entries@[q]).0@, vmodel(entries@[q].1)),
            fmodels_of(out@) == drop_key(fmodels_of(entries@.take(i as int)), key@),
        decreases entries@.len() - i,
    {
        let ghost fmpre = fmodels_of(entries@.take(i as int));
        proof {
            lemma_fmodels_of_push(entries@.take(i as int), entries@[i as int]);
            assert(entries@.take(i + 1) =~= entries@.take(i as int).push(
                entries@[i as int],
            ));
            assert(fmodels_of(entries@.take(i + 1)).last()
                == (entries@[i as int].0@, vmodel(entries@[i as int].1)));
            assert(fmodels_of(entries@.take(i + 1)).take(
                fmodels_of(entries@.take(i + 1)).len() - 1,
            ) =~= fmpre);
        }
        let keep = !crate::value::str_eq(entries[i].0.as_str(), key);
        if keep {
            let ghost outpre = out@;
            out.push((entries[i].0.clone(), entries[i].1.duplicate()));
            proof {
                lemma_fmodels_of_push(outpre, out@.last());
                assert(out@ =~= outpre.push(out@.last()));
            }
        }
        i = i + 1;
    }
    proof {
        assert(entries@.take(entries@.len() as int) =~= entries@);
    }
    out
}

/// The unit-taking constructor of the empty map.
pub fn map_empty(_unit: &Value) -> (r: Result<Value, VmError>)
    ensures
        r matches Ok(v) && is_table(vmodel(v))
            && table_entries(vmodel(v)) == Seq::<(Seq<char>, ValueM)>::empty(),
{
    let v = Value::Table(Vec::new());
    proof {
        assert(fmodels_of(Seq::<(String, Value)>::empty())
            =~= Seq::<(Seq<char>, ValueM)>::empty());
    }
    Ok(v)
}

/// A copy of `map` with `key` bound to `value`: the key's old binding,
/// if any, is replaced, and every other binding is kept. The key must
/// be a string and `map` a map.
pub fn map_add(key: &Value, value: &Value, map: &Value) -> (r: Result<Value, VmError>)
    ensures
        match r {
            Ok(v) => {
                &&& vmodel(*key) matches ValueM::Str(_)
                &&& vmodel(*map) matches ValueM::Table(_)
                &&& vmodel(v) matches ValueM::Table(_)
                &&& assoc_lookup(
                    table_entries(vmodel(v)),
                    vmodel(*key)->Str_0,
                ) == Some(vmodel(*value))
                &&& forall|other: Seq<char>| other != vmodel(*key)->Str_0
                    ==> #[trigger] assoc_lookup(table_entries(vmodel(v)), other)
                        == assoc_lookup(table_entries(vmodel(*map)), other)
                &&& (is_table(vmodel(*map)) ==> is_table(vmodel(v)))
            },
            Err(e) => {
                &&& e matches VmError::TypeMismatch { .. }
                &&& (!(vmodel(*key) matches ValueM::Str(_)) || !(vmodel(*map) matches
                    ValueM::Table(_)))
            },
        },
{
    let key_str = match key.as_str() {
        Some(s) => s,
        None => {
            return Err(VmError::TypeMismatch {
                expected: "string",
                got: key.kind_name(),
            });
        },
    };
    match map {
        Value::Table(entries) => {
            let mut out = filter_entries(entries, key_str);
            let ghost filtered = fmodels_of(out@);
            let ghost outpre = out@;
            out.push((String::from_str(key_str), value.duplicate()));
            proof {
                lemma_drop_key(fmodels_of(entries@), key_str@);
                lemma_fmodels_of_push(outpre, out@.last());
                assert(out@ =~= outpre.push(out@.last()));
                let fm = fmodels_of(out@);
                assert(fm.last() == (key_str@, vmodel(*value)));
                assert(fm.take(fm.len() - 1) =~= filtered);
                assert forall|other: Seq<char>| other != key_str@ implies
                    #[trigger] assoc_lookup(fm, other)
                        == assoc_lookup(fmodels_of(entries@), other) by {
                    assert(assoc_lookup(fm, other)
                        == assoc_lookup(fm.take(fm.len() - 1), other));
                    assert(assoc_lookup(filtered, other) == assoc_lookup(
                        drop_key(fmodels_of(entries@), key_str@),
                        other,
                    ));
                }
                assert forall|k: Seq<char>| #[trigger] count_key(fm, k) <= count_key(
                    fmodels_of(entries@),
                    k,
                ) + 1 by {
                    assert(count_key(fm, k) == count_key(filtered, k) + if k == key_str@ {
                        1nat
                    } else {
                        0nat
                    });
                }
                if keys_distinct(fmodels_of(entries@)) {
                    assert forall|k: Seq<char>| #[trigger] count_key(fm, k) <= 1 by {
                        assert(count_key(fm, k) == count_key(filtered, k)
                            + if k == key_str@ { 1nat } else { 0nat });
                        if k == key_str@ {
                            assert(count_key(filtered, k) == 0);
                        } else {
                            assert(count_key(filtered, k) <= count_key(
                                fmodels_of(entries@),
                                k,
                            ));
                        }
                    }
                }
            }
            Ok(Value::Table(out))
        },
        _ => Err(VmError::TypeMismatch { expected: "map", got: map.kind_name() }),
    }
}

/// A copy of `map` without any binding for `key`.
pub fn map_remove(key: &Value, map: &Value) -> (r: Result<Value, VmError>)
    ensures
        match r {
            Ok(v) => {
                &&& vmodel(*key) matches ValueM::Str(_)
                &&& vmodel(*map) matches ValueM::Table(_)
                &&& vmodel(v) matches ValueM::Table(_)
                &&& assoc_lookup(
                    table_entries(vmodel(v)),
                    vmodel(*key)->Str_0,
                ) is None
                &&& forall|other: Seq<char>| other != vmodel(*key)->Str_0
                    ==> #[trigger] assoc_lookup(table_entries(vmodel(v)), other)
                        == assoc_lookup(table_entries(vmodel(*map)), other)
                &&& (is_table(vmodel(*map)) ==> is_table(vmodel(v)))
            },
            Err(e) => {
                &&& e matches VmError::TypeMismatch { .. }
                &&& (!(vmodel(*key) matches ValueM::Str(_)) || !(vmodel(*map) matches
                    ValueM::Table(_)))
            },
        },
{
    let key_str = match key.as_str() {
        Some(s) => s,
        None => {
            return Err(VmError::TypeMismatch {
                expected: "string",
                got: key.kind_name(),
            });
        },
    };
    match map {
        Value::Table(entries) => {
            let out = filter_entries(entries, key_str);
            proof {
                lemma_drop_key(fmodels_of(entries@), key_str@);
            }
            Ok(Value::Table(out))
        },
        _ => Err(VmError::TypeMismatch { expected: "map", got: map.kind_name() }),
    }
}

/// The binding for `key` among the entries, scanned from the end,
/// duplicated.
fn assoc_get(entries: &Vec<(String, Value)>, key: &str) -> (r: Option<Value>)
    ensures
        match r {
            Some(v) => assoc_lookup(fmodels_of(entries@), key@) == Some(vmodel(v)),
            None => assoc_lookup(fmodels_of(entries@), key@) is None,
        },
{
    proof {
        lemma_fmodels_of(entries@);
    }
    let ghost fm = fmodels_of(entries@);
    let mut i: usize = entries.len();
    proof {
        assert(fm.take(fm.len() as int) =~= fm);
    }
    while i > 0
        invariant
            i <= entries@.len(),
            fm == fmodels_of(entries@),
            fm.len() == entries@.len(),
            forall|q: int| 0 <= q < entries@.len() ==> fm[q]
                == ((#[trigger] entries@[q]).0@, vmodel(entries@[q].1)),
            assoc_lookup(fm, key@) == assoc_lookup(fm.take(i as int), key@),
        decreases i,
    {
        i = i - 1;
        proof {
            assert(fm.take(i + 1).last() == fm[i as int]);
            assert(fm.take(i + 1).take(i as int) =~= fm.take(i as int));
        }
        if crate::value::str_eq(entries[i].0.as_str(), key) {
            return Some(entries[i].1.duplicate());
        }
    }
    None
}

/// The binding for `key` as an option variant: `Some v` or `None`.
pub fn map_try_find(key: &Value, map: &Value) -> (r: Result<Value, VmError>)
    ensures
        match r {
            Ok(v) => {
                &&& vmodel(*key) matches ValueM::Str(_)
                &&& vmodel(*map) matches ValueM::Table(_)
                &&& match assoc_lookup(
                    table_entries(vmodel(*map)),
                    vmodel(*key)->Str_0,
                ) {
                    Some(b) => vmodel(v) == (ValueM::Variant {
                        tag: "Option"@,
                        ctor: "Some"@,
                        fields: seq![b],
                    }),
                    None => vmodel(v) == (ValueM::Variant {
                        tag: "Option"@,
                        ctor: "None"@,
                        fields: Seq::<ValueM>::empty(),
                    }),
                }
            },
            Err(e) => {
                &&& e matches VmError::TypeMismatch { .. }
                &&& (!(vmodel(*key) matches ValueM::Str(_)) || !(vmodel(*map) matches
                    ValueM::Table(_)))
            },
        },
{
    let key_str = match key.as_str() {
        Some(s) => s,
        None => {
            return Err(VmError::TypeMismatch {
                expected: "string",
                got: key.kind_name(),
            });
        },
    };
    match map {
        Value::Table(entries) => match assoc_get(entries, key_str) {
            Some(v) => {
                let ghost bm = vmodel(v);
                let mut fields: Vec<Value> = Vec::new();
                fields.push(v);
                proof {
                    crate::value::lemma_models_of(fields@);
                    assert(crate::value::models_of(fields@) =~= seq![bm]);
                }
                Ok(Value::Variant {
                    tag: String::from_str("Option"),
                    ctor: String::from_str("Some"),
                    fields,
                })
            },
            None => {
                let fields: Vec<Value> = Vec::new();
                proof {
                    assert(crate::value::models_of(fields@) =~= Seq::<ValueM>::empty());
                }
                Ok(Value::Variant {
                    tag: String::from_str("Option"),
                    ctor: String::from_str("None"),
                    fields,
                })
            },
        },
        _ => Err(VmError::TypeMismatch { expected: "map", got: map.kind_name() }),
    }
}

/// The value bound to `key`; an absent key is a runtime fault.
pub fn map_find(key: &Value, map: &Value) -> (r: Result<Value, VmError>)
    ensures
        match r {
            Ok(v) => vmodel(*key) matches ValueM::Str(k)
                && assoc_lookup(table_entries(vmodel(*map)), k) == Some(vmodel(v)),
            Err(e) => match e {
                VmError::TypeMismatch { expected, got: _ } => (!(vmodel(
                    *key,
                ) matches ValueM::Str(_)) && expected@ == "string"@)
                    || ((vmodel(*key) matches ValueM::Str(_))
                        && !(vmodel(*map) matches ValueM::Table(_))
                        && expected@ == "map"@),
                VmError::Runtime(m) => vmodel(*key) matches ValueM::Str(k)
                    && (vmodel(*map) matches ValueM::Table(_))
                    && assoc_lookup(table_entries(vmodel(*map)), k) is None
                    && m@ == "Map key not found: "@ + k,
                _ => false,
            },
        },
{
    let key_str = match key.as_str() {
        Some(s) => s,
        None => {
            return Err(VmError::TypeMismatch {
                expected: "string",
                got: key.kind_name(),
            });
        },
    };
    match map {
        Value::Table(entries) => match assoc_get(entries, key_str) {
            Some(v) => Ok(v),
            None => {
                let mut m = String::new();
                m.append("Map key not found: ");
                m.append(key_str);
                proof {
                    assert(Seq::<char>::empty() + "Map key not found: "@ + key_str@
                        =~= "Map key not found: "@ + key_str@);
                }
                Err(VmError::Runtime(m))
            },
        },
        _ => Err(VmError::TypeMismatch { expected: "map", got: map.kind_name() }),
    }
}

/// Whether the map binds `key`.
pub fn map_contains_key(key: &Value, map: &Value) -> (r: Result<Value, VmError>)
    ensures
        match r {
            Ok(v) => vmodel(*key) matches ValueM::Str(k) && vmodel(v) == ValueM::Bool(
                assoc_lookup(table_entries(vmodel(*map)), k) is Some,
            ),
            Err(e) => {
                &&& e matches VmError::TypeMismatch { .. }
                &&& (!(vmodel(*key) matches ValueM::Str(_)) || !(vmodel(*map) matches
                    ValueM::Table(_)))
            },
        },
{
    let key_str = match key.as_str() {
        Some(s) => s,
        None => {
            return Err(VmError::TypeMismatch {
                expected: "string",
                got: key.kind_name(),
            });
        },
    };
    match map {
        Value::Table(entries) => match assoc_get(entries, key_str) {
            Some(_) => Ok(Value::Bool(true)),
            None => Ok(Value::Bool(false)),
        },
        _ => Err(VmError::TypeMismatch { expected: "map", got: map.kind_name() }),
    }
}

/// Whether the map has no bindings.
pub fn map_is_empty(map: &Value) -> (r: Result<Value, VmError>)
    ensures
        match r {
            Ok(v) => vmodel(*map) matches ValueM::Table(fs) && vmodel(v)
                == ValueM::Bool(fs.len() == 0),
            Err(e) => e matches VmError::TypeMismatch { .. }
                && !(vmodel(*map) matches ValueM::Table(_)),
        },
{
    match map {
        Value::Table(entries) => {
            proof {
                lemma_fmodels_of(entries@);
            }
            Ok(Value::Bool(entries.len() == 0))
        },
        _ => Err(VmError::TypeMismatch { expected: "map", got: map.kind_name() }),
    }
}

/// The number of bindings in the map.
pub fn map_count(map: &Value) -> (r: Result<Value, VmError>)
    ensures
        match r {
            Ok(v) => vmodel(*map) matches ValueM::Table(fs) && vmodel(v)
                == ValueM::Int(fs.len() as i64),
            Err(_) => !(vmodel(*map) matches ValueM::Table(_))
                || table_entries(vmodel(*map)).len() > i64::MAX,
        },
{
    match map {
        Value::Table(entries) => {
            proof {
                lemma_fmodels_of(entries@);
            }
            if entries.len() as u64 > 0x7fff_ffff_ffff_ffffu64 {
                return Err(VmError::Runtime(String::from_str("map is too large")));
            }
            Ok(Value::Int(entries.len() as i64))
        },
        _ => Err(VmError::TypeMismatch { expected: "map", got: map.kind_name() }),
    }
}

/// The key/value 2-tuple a map binding becomes in `Map.toList`.
pub open spec fn entry_tuple(p: (Seq<char>, ValueM)) -> ValueM {
    ValueM::Tuple(seq![ValueM::Str(p.0), p.1])
}

/// The key of such a 2-tuple.
pub open spec fn tuple_key(m: ValueM) -> Seq<char> {
    m->Tuple_0[0]->Str_0
}

/// The model of a stored binding.
pub open spec fn pair_model(p: (String, Value)) -> (Seq<char>, ValueM) {
    (p.0@, vmodel(p.1))
}

/// Whether the tuple `t` occurs in `items`.
pub open spec fn seq_has(items: Seq<ValueM>, t: ValueM) -> bool {
    exists|j: int| 0 <= j < items.len() && #[trigger] items[j] == t
}

/// Whether `t` is the 2-tuple of some binding of `fs`.
pub open spec fn from_table(fs: Seq<(Seq<char>, ValueM)>, t: ValueM) -> bool {
    exists|i: int| 0 <= i < fs.len() && entry_tuple(#[trigger] fs[i]) == t
}

/// Whether a stored binding with model `p` occurs in `s`.
pub open spec fn sorted_has(s: Seq<(String, Value)>, p: (Seq<char>, ValueM)) -> bool {
    exists|w: int| 0 <= w < s.len() && pair_model(#[trigger] s[w]) == p
}

/// Whether `p` is one of the first `n` bindings of `fs`.
pub open spec fn among(fs: Seq<(Seq<char>, ValueM)>, n: int, p: (Seq<char>, ValueM)) -> bool {
    exists|q: int| 0 <= q < n && #[trigger] fs[q] == p
}

/// Every element of a list-shaped argument is a string-keyed 2-tuple:
/// the shape of argument on which `Map.ofList` is owed success.
pub open spec fn of_list_arg_ok(m: ValueM) -> bool {
    match crate::value::list_model(m) {
        Some(items) => forall|i: int| 0 <= i < items.len()
            ==> ((#[trigger] items[i]) matches ValueM::Tuple(parts)
                && parts.len() == 2 && (parts[0] matches ValueM::Str(_))),
        None => false,
    }
}

/// The value that the last key/value 2-tuple of `items` binds to
/// `key`, if any: earlier pairs for the same key are shadowed.
pub open spec fn of_list_lookup(items: Seq<ValueM>, key: Seq<char>) -> Option<ValueM>
    decreases items.len(),
{
    if items.len() == 0 {
        None
    } else if items.last() matches ValueM::Tuple(parts) && parts.len() == 2
        && (parts[0] matches ValueM::Str(k) && k == key) {
        Some(items.last()->Tuple_0[1])
    } else {
        of_list_lookup(items.drop_last(), key)
    }
}

/// Build a map from a list of key/value 2-tuples; a later pair for a
/// key replaces an earlier one.
pub fn map_of_list(list: &Value) -> (r: Result<Value, VmError>)
    ensures
        r matches Ok(v) ==> is_table(vmodel(v)),
        r matches Ok(v) ==> (crate::value::list_model(vmodel(*list)) matches Some(pairs)
            && (forall|key: Seq<char>|
                #[trigger] assoc_lookup(table_entries(vmodel(v)), key)
                    == of_list_lookup(pairs, key))),
        of_list_arg_ok(vmodel(*list)) ==> r is Ok,
        crate::value::list_model(vmodel(*list)) is None ==> r is Err,
{
    let items = match Value::cons_to_vec(list) {
        Some(xs) => xs,
        None => {
            return Err(VmError::TypeMismatch {
                expected: "list",
                got: list.kind_name(),
            });
        },
    };
    let mut acc = Value::Table(Vec::new());
    proof {
        assert(fmodels_of(Seq::<(String, Value)>::empty())
            =~= Seq::<(Seq<char>, ValueM)>::empty());
        crate::value::lemma_models_of(items@);
        assert(crate::value::models_of(items@).take(0) =~= Seq::<ValueM>::empty());
    }
    let mut i: usize = 0;
    while i < items.len()
        invariant
            i <= items@.len(),
            is_table(vmodel(acc)),
            crate::value::list_model(vmodel(*list)) == Some(crate::value::models_of(items@)),
            forall|key: Seq<char>|
                #[trigger] assoc_lookup(table_entries(vmodel(acc)), key)
                    == of_list_lookup(crate::value::models_of(items@).take(i as int), key),
        decreases items@.len() - i,
    {
        let ghost ms = crate::value::models_of(items@);
        let ghost preacc = vmodel(acc);
        let added = match &items[i] {
            Value::Tuple(parts) => {
                if parts.len() != 2 {
                    proof {
                        crate::value::lemma_models_of(items@);
                        crate::value::lemma_models_of(parts@);
                        let ms = crate::value::models_of(items@);
                        assert(ms[i as int] == vmodel(items@[i as int]));
                        assert(ms[i as int]
                            == ValueM::Tuple(crate::value::models_of(parts@)));
                        assert(!of_list_arg_ok(vmodel(*list)));
                    }
                    return Err(VmError::Runtime(String::from_str(
                        "Map.ofList expects a list of 2-tuples",
                    )));
                }
                match parts[0].as_str() {
                    Some(_) => {},
                    None => {
                        proof {
                            crate::value::lemma_models_of(items@);
                            crate::value::lemma_models_of(parts@);
                            let ms = crate::value::models_of(items@);
                            assert(ms[i as int] == vmodel(items@[i as int]));
                            assert(ms[i as int]
                                == ValueM::Tuple(crate::value::models_of(parts@)));
                            assert(crate::value::models_of(parts@)[0]
                                == vmodel(parts@[0]));
                            assert(!of_list_arg_ok(vmodel(*list)));
                        }
                        return Err(VmError::TypeMismatch {
                            expected: "string",
                            got: parts[0].kind_name(),
                        });
                    },
                }
                proof {
                    crate::value::lemma_models_of(items@);
                    crate::value::lemma_models_of(parts@);
                    assert(ms[i as int] == vmodel(items@[i as int]));
                    assert(ms[i as int] == ValueM::Tuple(crate::value::models_of(parts@)));
                    assert(crate::value::models_of(parts@)[0] == vmodel(parts@[0]));
                    assert(crate::value::models_of(parts@)[1] == vmodel(parts@[1]));
                }
                map_add(&parts[0], &parts[1], &acc)?
            },
            _ => {
                proof {
                    crate::value::lemma_models_of(items@);
                    let ms = crate::value::models_of(items@);
                    assert(ms[i as int] == vmodel(items@[i as int]));
                    assert(!(ms[i as int] matches ValueM::Tuple(_)));
                    assert(!of_list_arg_ok(vmodel(*list)));
                }
                return Err(VmError::Runtime(String::from_str(
                    "Map.ofList expects a list of tuples",
                )));
            },
        };
        acc = added;
        proof {
            crate::value::lemma_models_of(items@);
            let mi = ms[i as int];
            assert(ms.take(i + 1).drop_last() =~= ms.take(i as int));
            assert(ms.take(i + 1).last() == mi);
            let k0 = mi->Tuple_0[0]->Str_0;
            assert forall|key: Seq<char>|
                #[trigger] assoc_lookup(table_entries(vmodel(acc)), key)
                    == of_list_lookup(ms.take(i + 1), key) by {
                if key == k0 {
                    assert(assoc_lookup(table_entries(vmodel(acc)), key)
                        == Some(mi->Tuple_0[1]));
                } else {
                    assert(assoc_lookup(table_entries(vmodel(acc)), key)
                        == assoc_lookup(table_entries(preacc), key));
                }
            }
        }
        i = i + 1;
    }
    proof {
        crate::value::lemma_models_of(items@);
        assert(crate::value::models_of(items@).take(items@.len() as int) =~= crate::value::models_of(items@));
    }
    Ok(acc)
}

/// The map's bindings as a list of key/value 2-tuples, in ascending
/// key order: every binding appears exactly once, and no later tuple's
/// key is less than an earlier one's.
pub fn map_to_list(map: &Value) -> (r: Result<Value, VmError>)
    ensures
        match r {
            Ok(v) => vmodel(*map) matches ValueM::Table(fs)
                && (crate::value::list_model(vmodel(v)) matches Some(items)
                && items.len() == fs.len()
                && (forall|i: int| 0 <= i < fs.len()
                    ==> seq_has(items, entry_tuple(#[trigger] fs[i])))
                && (forall|j: int| 0 <= j < items.len()
                    ==> from_table(fs, #[trigger] items[j]))
                && (forall|a: int, b: int| 0 <= a < b < items.len()
                    ==> !crate::vm::chars_lt(
                        tuple_key(#[trigger] items[b]),
                        tuple_key(#[trigger] items[a]),
                    ))),
            Err(e) => e matches VmError::TypeMismatch { .. }
                && !(vmodel(*map) matches ValueM::Table(_)),
        },
{
    match map {
        Value::Table(entries) => {
            proof {
                lemma_fmodels_of(entries@);
            }
            let mut sorted: Vec<(String, Value)> = Vec::new();
            let mut i: usize = 0;
            while i < entries.len()
                invariant
                    i <= entries@.len(),
                    sorted@.len() == i,
                    fmodels_of(entries@).len() == entries@.len(),
                    forall|q: int| 0 <= q < entries@.len() ==> fmodels_of(entries@)[q]
                        == ((#[trigger] entries@[q]).0@, vmodel(entries@[q].1)),
                    forall|q: int| 0 <= q < i ==> sorted_has(
                        sorted@,
                        #[trigger] fmodels_of(entries@)[q],
                    ),
                    forall|w: int| 0 <= w < sorted@.len() ==> among(
                        fmodels_of(entries@),
                        i as int,
                        pair_model(#[trigger] sorted@[w]),
                    ),
                    forall|a: int, b: int| 0 <= a < b < sorted@.len()
                        ==> !crate::vm::chars_lt(
                            (#[trigger] sorted@[b]).0@,
                            (#[trigger] sorted@[a]).0@,
                        ),
                decreases entries@.len() - i,
            {
                let kc = entries[i].0.clone();
                let vd = entries[i].1.duplicate();
                let mut pos: usize = 0;
                while pos < sorted.len() && !crate::vm::str_lt(
                    kc.as_str(),
                    sorted[pos].0.as_str(),
                )
                    invariant
                        pos <= sorted@.len(),
                        kc@ == entries@[i as int].0@,
                        forall|a: int| 0 <= a < pos ==> !crate::vm::chars_lt(
                            kc@,
                            (#[trigger] sorted@[a]).0@,
                        ),
                    decreases sorted@.len() - pos,
                {
                    pos = pos + 1;
                }
                let ghost pre = sorted@;
                let ghost newp = (kc, vd);
                let ghost gpos = pos as int;
                sorted.insert(pos, (kc, vd));
                proof {
                    assert(sorted@ == pre.insert(gpos, newp));
                    assert(sorted@[gpos] == newp);
                    assert forall|w: int| 0 <= w < pre.len() implies
                        sorted@[if w < gpos { w } else { w + 1 }] == pre[w] by {
                    }
                    // Sortedness survives the insertion.
                    assert forall|a: int, b: int| 0 <= a < b < sorted@.len() implies
                        !crate::vm::chars_lt(sorted@[b].0@, sorted@[a].0@) by {
                        if a < gpos && b < gpos {
                            assert(sorted@[a] == pre[a] && sorted@[b] == pre[b]);
                        } else if a > gpos && b > gpos {
                            assert(sorted@[a] == pre[a - 1] && sorted@[b] == pre[b - 1]);
                        } else if a < gpos && b == gpos {
                            assert(sorted@[a] == pre[a]);
                            assert(!crate::vm::chars_lt(newp.0@, pre[a].0@));
                        } else if a < gpos && b > gpos {
                            assert(sorted@[a] == pre[a] && sorted@[b] == pre[b - 1]);
                        } else {
                            // a == gpos < b: the walk stopped strictly below
                            // the old element at gpos.
                            assert(sorted@[b] == pre[b - 1]);
                            assert(gpos < pre.len());
                            assert(crate::vm::chars_lt(newp.0@, pre[gpos].0@));
                            if crate::vm::chars_lt(pre[b - 1].0@, newp.0@) {
                                crate::vm::lemma_chars_lt_trans(
                                    pre[b - 1].0@,
                                    newp.0@,
                                    pre[gpos].0@,
                                );
                                assert(b - 1 > gpos ==> !crate::vm::chars_lt(
                                    pre[b - 1].0@,
                                    pre[gpos].0@,
                                ));
                                crate::vm::lemma_chars_lt_asym(newp.0@, pre[gpos].0@);
                                assert(false);
                            }
                        }
                    }
                    // Every earlier binding is still present.
                    assert forall|q: int| 0 <= q < i + 1 implies sorted_has(
                        sorted@,
                        #[trigger] fmodels_of(entries@)[q],
                    ) by {
                        if q < i {
                            let w0 = choose|w: int| 0 <= w < pre.len()
                                && pair_model(#[trigger] pre[w]) == fmodels_of(entries@)[q];
                            if w0 < gpos {
                                assert(sorted@[w0] == pre[w0]);
                                assert(pair_model(sorted@[w0])
                                    == fmodels_of(entries@)[q]);
                            } else {
                                assert(sorted@[w0 + 1] == pre[w0]);
                                assert(pair_model(sorted@[w0 + 1])
                                    == fmodels_of(entries@)[q]);
                            }
                        } else {
                            assert(pair_model(sorted@[gpos]) == fmodels_of(entries@)[q]);
                        }
                    }
                    // And nothing else was added.
                    assert forall|w: int| 0 <= w < sorted@.len() implies among(
                        fmodels_of(entries@),
                        i + 1,
                        pair_model(#[trigger] sorted@[w]),
                    ) by {
                        if w < gpos {
                            assert(sorted@[w] == pre[w]);
                            assert(among(fmodels_of(entries@), i as int,
                                pair_model(pre[w])));
                        } else if w > gpos {
                            assert(sorted@[w] == pre[w - 1]);
                            assert(among(fmodels_of(entries@), i as int,
                                pair_model(pre[w - 1])));
                        } else {
                            assert(fmodels_of(entries@)[i as int]
                                == pair_model(sorted@[gpos]));
                        }
                    }
                }
                i = i + 1;
            }
            let ghost sortedv = sorted@;
            let mut out: Vec<Value> = Vec::new();
            let mut j: usize = 0;
            while j < sorted.len()
                invariant
                    j <= sorted@.len(),
                    sorted@ == sortedv,
                    out@.len() == j,
                    forall|q: int| 0 <= q < j ==> vmodel(#[trigger] out@[q])
                        == entry_tuple(pair_model(sortedv[q])),
                decreases sorted@.len() - j,
            {
                let k = Value::Str(sorted[j].0.clone());
                let v = sorted[j].1.duplicate();
                let ghost km = vmodel(k);
                let ghost wm = vmodel(v);
                let mut parts: Vec<Value> = Vec::new();
                parts.push(k);
                parts.push(v);
                proof {
                    assert(parts@ =~= seq![parts@[0], parts@[1]]);
                    crate::value::lemma_models_of(parts@);
                    assert(crate::value::models_of(parts@) =~= seq![km, wm]);
                }
                out.push(Value::Tuple(parts));
                j = j + 1;
            }
            let ghost outv = out@;
            let result = Value::vec_to_cons(out);
            proof {
                crate::value::lemma_models_of(outv);
                let items = crate::value::models_of(outv);
                let fs = fmodels_of(entries@);
                assert forall|q: int| 0 <= q < items.len() implies #[trigger] items[q]
                    == entry_tuple(pair_model(sortedv[q])) by {
                    assert(items[q] == vmodel(outv[q]));
                }
                assert forall|q: int| 0 <= q < items.len() implies
                    tuple_key(#[trigger] items[q]) == sortedv[q].0@ by {
                }
                assert forall|q: int| 0 <= q < fs.len() implies seq_has(
                    items,
                    entry_tuple(#[trigger] fs[q]),
                ) by {
                    let w0 = choose|w: int| 0 <= w < sortedv.len()
                        && pair_model(#[trigger] sortedv[w]) == fs[q];
                    assert(items[w0] == entry_tuple(fs[q]));
                }
                assert forall|w: int| 0 <= w < items.len() implies from_table(
                    fs,
                    #[trigger] items[w],
                ) by {
                    let q0 = choose|q: int| 0 <= q < fs.len()
                        && #[trigger] fs[q] == pair_model(sortedv[w]);
                    assert(entry_tuple(fs[q0]) == items[w]);
                }
            }
            Ok(result)
        },
        _ => Err(VmError::TypeMismatch { expected: "map", got: map.kind_name() }),
    }
}

} // verus!
