//! Saved settings over the defaults.
//!
//! A file that an older version saved lacks the settings that came later. Its values
//! are laid over the defaults, so that it keeps working.
use vstd::prelude::*;

use crate::text::same;

verus! {

/// The members of a JSON object: keys, and values in JSON notation.
pub open spec fn entries(v: Seq<(String, String)>) -> Seq<(Seq<char>, Seq<char>)> {
    Seq::new(v.len(), |i: int| (v[i].0@, v[i].1@))
}

/// The members of the JSON object that `serde_json` reads in bytes. Nothing where they
/// hold no JSON, or another value than an object.
pub uninterp spec fn json_members(bytes: Seq<u8>) -> Option<Seq<(Seq<char>, Seq<char>)>>;

/// Calls `serde_json::from_slice`, and `to_string` of the value of each member. The
/// members of the object, if there is one, are a function of the bytes.
#[verifier::external_body]
fn read_members(bytes: &[u8]) -> (r: Option<Vec<(String, String)>>)
    ensures
        match r {
            Some(v) => json_members(bytes@) == Some(entries(v@)),
            None => json_members(bytes@) is None,
        },
{
    match serde_json::from_slice::<serde_json::Value>(bytes) {
        Ok(serde_json::Value::Object(m)) => {
            Some(m.into_iter().map(|(k, v)| (k, v.to_string())).collect())
        },
        _ => None,
    }
}

/// A text in JSON notation, as `serde_json` writes it.
pub uninterp spec fn json_string(s: Seq<char>) -> Seq<char>;

/// Calls `to_string` of a `serde_json::Value::String`. The notation is a function of
/// the text.
#[verifier::external_body]
fn write_json_string(s: &str) -> (r: String)
    ensures
        r@ == json_string(s@),
{
    serde_json::Value::String(s.to_string()).to_string()
}

/// The place of a key, from `from` on.
pub open spec fn key_at(m: Seq<(Seq<char>, Seq<char>)>, key: Seq<char>, from: int) -> Option<int>
    decreases m.len() - from,
{
    if from < 0 || from >= m.len() {
        None
    } else if m[from].0 == key {
        Some(from)
    } else {
        key_at(m, key, from + 1)
    }
}

/// The value of a key.
pub open spec fn value_of(m: Seq<(Seq<char>, Seq<char>)>, key: Seq<char>) -> Option<Seq<char>> {
    match key_at(m, key, 0) {
        Some(i) => Some(m[i].1),
        None => None,
    }
}

/// `m` with this value for this key.
pub open spec fn with_value(m: Seq<(Seq<char>, Seq<char>)>, key: Seq<char>, value: Seq<char>) -> Seq<
    (Seq<char>, Seq<char>),
> {
    match key_at(m, key, 0) {
        Some(i) => m.update(i, (key, value)),
        None => m.push((key, value)),
    }
}

/// `m` with the values of the first `n` members of `over`.
pub open spec fn overlaid(
    m: Seq<(Seq<char>, Seq<char>)>,
    over: Seq<(Seq<char>, Seq<char>)>,
    n: int,
) -> Seq<(Seq<char>, Seq<char>)>
    decreases n,
{
    if n <= 0 {
        m
    } else {
        with_value(overlaid(m, over, n - 1), over[n - 1].0, over[n - 1].1)
    }
}

fn find_key(m: &Vec<(String, String)>, key: &str) -> (r: Option<usize>)
    ensures
        match r {
            Some(i) => i < m.len() && key_at(entries(m@), key@, 0) == Some(i as int),
            None => key_at(entries(m@), key@, 0) is None,
        },
{
    let mut i: usize = 0;
    while i < m.len()
        invariant
            i <= m.len(),
            key_at(entries(m@), key@, 0) == key_at(entries(m@), key@, i as int),
        decreases m.len() - i,
    {
        assert(entries(m@)[i as int].0 == m@[i as int].0@);
        if same(m[i].0.as_str(), key) {
            return Some(i);
        }
        i = i + 1;
    }
    None
}

/// Lays the members of `over` over `m`.
pub fn overlay(m: Vec<(String, String)>, over: &Vec<(String, String)>) -> (r: Vec<(String, String)>)
    ensures
        entries(r@) == overlaid(entries(m@), entries(over@), over@.len() as int),
{
    let ghost base = entries(m@);
    let ghost top = entries(over@);
    let mut m = m;
    let mut i: usize = 0;
    while i < over.len()
        invariant
            i <= over.len(),
            top == entries(over@),
            entries(m@) == overlaid(base, top, i as int),
        decreases over.len() - i,
    {
        let ghost now = entries(m@);
        let member = (over[i].0.clone(), over[i].1.clone());
        let ghost pair = (member.0@, member.1@);
        assert(top[i as int] == pair);
        match find_key(&m, over[i].0.as_str()) {
            Some(k) => {
                m.set(k, member);
                assert(entries(m@) =~= now.update(k as int, pair));
            },
            None => {
                m.push(member);
                assert(entries(m@) =~= now.push(pair));
            },
        }
        i = i + 1;
    }
    m
}

/// The first `n` members in JSON notation, with commas between them.
pub open spec fn members_text(m: Seq<(Seq<char>, Seq<char>)>, n: int) -> Seq<char>
    decreases n,
{
    if n <= 0 {
        seq![]
    } else {
        members_text(m, n - 1) + (if n > 1 {
            ","@
        } else {
            seq![]
        }) + json_string(m[n - 1].0) + ":"@ + m[n - 1].1
    }
}

/// An object in JSON notation.
pub open spec fn object_text(m: Seq<(Seq<char>, Seq<char>)>) -> Seq<char> {
    "{"@ + members_text(m, m.len() as int) + "}"@
}

/// Writes an object.
pub fn write_object(m: &Vec<(String, String)>) -> (r: String)
    ensures
        r@ == object_text(entries(m@)),
{
    let ghost e = entries(m@);
    let mut s = String::new();
    let mut i: usize = 0;
    while i < m.len()
        invariant
            i <= m.len(),
            e == entries(m@),
            s@ == members_text(e, i as int),
        decreases m.len() - i,
    {
        assert(e[i as int] == (m@[i as int].0@, m@[i as int].1@));
        let ghost so_far = s@;
        if i > 0 {
            s.append(",");
        }
        let key = write_json_string(m[i].0.as_str());
        s.append(key.as_str());
        s.append(":");
        s.append(m[i].1.as_str());
        assert(s@ =~= members_text(e, i + 1));
        i = i + 1;
    }
    let mut out = "{".to_string();
    out.append(s.as_str());
    out.append("}");
    out
}

/// The settings to use: the saved ones over the defaults, both as JSON. What was saved
/// counts only where it is an object. Nothing where the defaults are none.
pub fn merge_settings(defaults: &[u8], saved: &[u8]) -> (r: Option<String>)
    ensures
        match json_members(defaults@) {
            None => r is None,
            Some(base) => r matches Some(t) && t@ == (match json_members(saved@) {
                Some(over) => object_text(overlaid(base, over, over.len() as int)),
                None => object_text(base),
            }),
        },
{
    let base = read_members(defaults)?;
    match read_members(saved) {
        Some(over) => {
            let m = overlay(base, &over);
            Some(write_object(&m))
        },
        None => Some(write_object(&base)),
    }
}

// ---- laws ----

proof fn lemma_key_at(m: Seq<(Seq<char>, Seq<char>)>, key: Seq<char>, from: int)
    requires
        0 <= from,
    ensures
        match key_at(m, key, from) {
            Some(i) => from <= i < m.len() && m[i].0 == key && forall|k: int|
                from <= k < i ==> (#[trigger] m[k]).0 != key,
            None => forall|k: int| from <= k < m.len() ==> (#[trigger] m[k]).0 != key,
        },
    decreases m.len() - from,
{
    if from < m.len() && m[from].0 != key {
        lemma_key_at(m, key, from + 1);
    }
}

proof fn lemma_with_value(
    m: Seq<(Seq<char>, Seq<char>)>,
    key: Seq<char>,
    value: Seq<char>,
    other: Seq<char>,
)
    ensures
        value_of(with_value(m, key, value), other) == if other == key {
            Some(value)
        } else {
            value_of(m, other)
        },
{
    let w = with_value(m, key, value);
    lemma_key_at(m, key, 0);
    lemma_key_at(m, other, 0);
    lemma_key_at(w, other, 0);
    match key_at(m, key, 0) {
        Some(i) => {
            assert(forall|k: int| 0 <= k < m.len() ==> (#[trigger] w[k]).0 == m[k].0);
            if let Some(a) = key_at(m, other, 0) {
                assert(w[a].0 == other);
                let b = key_at(w, other, 0)->0;
                if b < a {
                    assert(m[b].0 == w[b].0);
                }
                if a < b {
                    assert(w[a].0 == other);
                }
            } else if let Some(b) = key_at(w, other, 0) {
                assert(m[b].0 == other);
            }
        },
        None => {
            assert(forall|k: int| 0 <= k < m.len() ==> (#[trigger] w[k]) == m[k]);
            assert(w[m.len() as int] == (key, value));
            if let Some(a) = key_at(m, other, 0) {
                assert(w[a].0 == other);
                let b = key_at(w, other, 0)->0;
                if b < a {
                    assert(m[b].0 == w[b].0);
                }
            } else if other == key {
                assert(w[m.len() as int].0 == other);
                let b = key_at(w, other, 0)->0;
                if b < m.len() {
                    assert(m[b].0 == other);
                }
            } else if let Some(b) = key_at(w, other, 0) {
                if b < m.len() {
                    assert(m[b].0 == other);
                }
            }
        },
    }
}

/// A setting that was not saved keeps its default.
pub proof fn law_missing_keeps_default(
    base: Seq<(Seq<char>, Seq<char>)>,
    over: Seq<(Seq<char>, Seq<char>)>,
    n: int,
    key: Seq<char>,
)
    requires
        0 <= n <= over.len(),
        forall|i: int| 0 <= i < n ==> (#[trigger] over[i]).0 != key,
    ensures
        value_of(overlaid(base, over, n), key) == value_of(base, key),
    decreases n,
{
    if n > 0 {
        law_missing_keeps_default(base, over, n - 1, key);
        lemma_with_value(overlaid(base, over, n - 1), over[n - 1].0, over[n - 1].1, key);
    }
}

/// The last of the first `n` values that a key has.
pub open spec fn last_value(
    m: Seq<(Seq<char>, Seq<char>)>,
    key: Seq<char>,
    n: int,
) -> Option<Seq<char>>
    decreases n,
{
    if n <= 0 {
        None
    } else if m[n - 1].0 == key {
        Some(m[n - 1].1)
    } else {
        last_value(m, key, n - 1)
    }
}

/// Every setting that was saved has its saved value, and every other one its default.
pub proof fn law_every_setting(
    base: Seq<(Seq<char>, Seq<char>)>,
    over: Seq<(Seq<char>, Seq<char>)>,
    n: int,
    key: Seq<char>,
)
    requires
        0 <= n <= over.len(),
    ensures
        value_of(overlaid(base, over, n), key) == (match last_value(over, key, n) {
            Some(v) => Some(v),
            None => value_of(base, key),
        }),
    decreases n,
{
    if n > 0 {
        law_every_setting(base, over, n - 1, key);
        lemma_with_value(overlaid(base, over, n - 1), over[n - 1].0, over[n - 1].1, key);
    }
}

/// A setting that was saved has the saved value, the last one if it was saved twice.
pub proof fn law_saved_wins(
    base: Seq<(Seq<char>, Seq<char>)>,
    over: Seq<(Seq<char>, Seq<char>)>,
    n: int,
    i: int,
)
    requires
        0 <= i < n <= over.len(),
        forall|k: int| i < k < n ==> (#[trigger] over[k]).0 != over[i].0,
    ensures
        value_of(overlaid(base, over, n), over[i].0) == Some(over[i].1),
    decreases n,
{
    lemma_with_value(overlaid(base, over, n - 1), over[n - 1].0, over[n - 1].1, over[i].0);
    if i < n - 1 {
        assert(over[n - 1].0 != over[i].0);
        law_saved_wins(base, over, n - 1, i);
    }
}

/// An object is written member by member, each as its key, a colon and its value, with a comma
/// between one member and the next.
pub proof fn law_object_text(
    m: Seq<(Seq<char>, Seq<char>)>,
    key: Seq<char>,
    value: Seq<char>,
)
    ensures
        object_text(seq![]) == "{"@ + "}"@,
        object_text(seq![(key, value)]) == "{"@ + (json_string(key) + ":"@ + value) + "}"@,
        m.len() > 0 ==> object_text(m.push((key, value))) == "{"@ + members_text(m, m.len() as int)
            + ","@ + json_string(key) + ":"@ + value + "}"@,
{
    let none: Seq<(Seq<char>, Seq<char>)> = seq![];
    assert(object_text(none) =~= "{"@ + "}"@);
    reveal_with_fuel(members_text, 2);
    let one = seq![(key, value)];
    assert(one[0] == (key, value));
    assert(object_text(one) =~= "{"@ + (json_string(key) + ":"@ + value) + "}"@);
    if m.len() > 0 {
        let more = m.push((key, value));
        lemma_members_front(m, (key, value), m.len() as int);
        assert(more[m.len() as int] == (key, value));
        assert(members_text(more, m.len() as int + 1) =~= members_text(m, m.len() as int) + ","@
            + json_string(key) + ":"@ + value);
        assert(object_text(more) =~= "{"@ + members_text(m, m.len() as int) + ","@ + json_string(
            key,
        ) + ":"@ + value + "}"@);
    }
}

proof fn lemma_members_front(
    m: Seq<(Seq<char>, Seq<char>)>,
    x: (Seq<char>, Seq<char>),
    n: int,
)
    requires
        n <= m.len(),
    ensures
        members_text(m.push(x), n) == members_text(m, n),
    decreases n,
{
    if n > 0 {
        lemma_members_front(m, x, n - 1);
        assert(m.push(x)[n - 1] == m[n - 1]);
    }
}

/// Settings keep their places: what is laid over them changes values in place, and adds what is
/// new at the end.
pub proof fn law_places_stay(
    base: Seq<(Seq<char>, Seq<char>)>,
    over: Seq<(Seq<char>, Seq<char>)>,
    n: int,
    i: int,
)
    requires
        0 <= n <= over.len(),
        0 <= i < base.len(),
    ensures
        overlaid(base, over, n).len() >= base.len(),
        overlaid(base, over, n)[i].0 == base[i].0,
    decreases n,
{
    if n > 0 {
        law_places_stay(base, over, n - 1, i);
        lemma_key_at(overlaid(base, over, n - 1), over[n - 1].0, 0);
    }
}

/// The members of an object are those of each pair.
pub proof fn law_entries(v: Seq<(String, String)>, i: int)
    requires
        0 <= i < v.len(),
    ensures
        entries(v).len() == v.len(),
        entries(v)[i].0 == v[i].0@ && entries(v)[i].1 == v[i].1@,
{
}

} // verus!
