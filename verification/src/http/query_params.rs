//! Query strings: `key=value` pairs joined by `&`, read into a mapping in
//! which a repeated key collects its values in the order they appear.

use vstd::prelude::*;
use crate::http::text::{first_of, split_at_char, str_eq};

verus! {

/// What a key of a query string maps to, as a mathematical value.
pub ghost enum ParamValue {
    /// The key appeared once.
    Single(Seq<char>),
    /// The key appeared more than once: its values, first to last.
    Multiple(Seq<Seq<char>>),
}

/// The `(key, value)` pair that one `&`-separated piece of a query string
/// stands for: cut at the first `=`, or the whole piece as key with an empty
/// value where it holds no `=`.
pub open spec fn pair_of(piece: Seq<char>) -> (Seq<char>, Seq<char>) {
    let i = first_of(piece, set!['=']);
    if 0 <= i < piece.len() {
        (piece.subrange(0, i), piece.subrange(i + 1, piece.len() as int))
    } else {
        (piece, Seq::empty())
    }
}

/// The pairs of a query string, in the order in which they appear. The
/// string is cut at every `&`; an empty string is one empty piece.
pub open spec fn pairs(q: Seq<char>) -> Seq<(Seq<char>, Seq<char>)>
    decreases q.len(),
{
    let i = first_of(q, set!['&']);
    if 0 <= i < q.len() {
        seq![pair_of(q.subrange(0, i))] + pairs(q.subrange(i + 1, q.len() as int))
    } else {
        seq![pair_of(q)]
    }
}

/// The values that `pairs` gives to `key`, in order.
pub open spec fn values_of(pairs: Seq<(Seq<char>, Seq<char>)>, key: Seq<char>) -> Seq<Seq<char>>
    decreases pairs.len(),
{
    if pairs.len() == 0 {
        Seq::empty()
    } else {
        let before = values_of(pairs.drop_last(), key);
        if pairs.last().0 == key {
            before.push(pairs.last().1)
        } else {
            before
        }
    }
}

/// How the values of one key are held: alone when there is one, as a list
/// otherwise.
pub open spec fn param_value(values: Seq<Seq<char>>) -> ParamValue {
    if values.len() == 1 {
        ParamValue::Single(values[0])
    } else {
        ParamValue::Multiple(values)
    }
}

/// The mapping that a query string stands for: every key that appears, with
/// its values in order of appearance.
pub open spec fn query_map(q: Seq<char>) -> Map<Seq<char>, ParamValue> {
    Map::new(
        |k: Seq<char>| values_of(pairs(q), k).len() > 0,
        |k: Seq<char>| param_value(values_of(pairs(q), k)),
    )
}

/// A key has values exactly when some pair has that key.
pub proof fn lemma_key_appears(pairs: Seq<(Seq<char>, Seq<char>)>, key: Seq<char>)
    ensures
        values_of(pairs, key).len() > 0 <==> exists|i: int|
            0 <= i < pairs.len() && (#[trigger] pairs[i]).0 == key,
    decreases pairs.len(),
{
    if pairs.len() > 0 {
        let before = pairs.drop_last();
        lemma_key_appears(before, key);
        if values_of(pairs, key).len() > 0 {
            if pairs.last().0 == key {
                assert(pairs[pairs.len() - 1].0 == key);
            } else {
                let i = choose|i: int| 0 <= i < before.len() && (#[trigger] before[i]).0 == key;
                assert(pairs[i].0 == key);
            }
        } else {
            assert forall|i: int| 0 <= i < pairs.len() implies (#[trigger] pairs[i]).0 != key by {
                if i < before.len() {
                    assert(before[i].0 != key);
                }
            }
        }
    }
}

/// Every query string, the empty one too, has a first pair, and its key is
/// in the mapping.
pub proof fn lemma_query_map_is_not_empty(q: Seq<char>)
    ensures
        pairs(q).len() >= 1,
        query_map(q).contains_key(pairs(q)[0].0),
{
    lemma_key_appears(pairs(q), pairs(q)[0].0);
}

/// A key is in the mapping exactly when a pair of the query string has it.
/// It then maps to a single value if one pair has it, and else to the values
/// of all the pairs that have it, in their order.
pub proof fn lemma_query_map_entry(q: Seq<char>, key: Seq<char>)
    ensures
        query_map(q).contains_key(key) <==> exists|i: int|
            0 <= i < pairs(q).len() && (#[trigger] pairs(q)[i]).0 == key,
        query_map(q).contains_key(key) ==> {
            let values = values_of(pairs(q), key);
            match query_map(q)[key] {
                ParamValue::Single(value) => values == seq![value],
                ParamValue::Multiple(list) => list == values && values.len() >= 2,
            }
        },
{
    lemma_key_appears(pairs(q), key);
    let values = values_of(pairs(q), key);
    if values.len() == 1 {
        assert(values =~= seq![values[0]]);
    }
}

/// The value of one query parameter.
#[derive(Debug)]
pub enum Value<'buf> {
    Single(&'buf str),
    Multiple(Vec<&'buf str>),
}

impl<'buf> View for Value<'buf> {
    type V = ParamValue;

    open spec fn view(&self) -> ParamValue {
        match self {
            Value::Single(s) => ParamValue::Single(s@),
            Value::Multiple(list) => ParamValue::Multiple(list@.map_values(|s: &str| s@)),
        }
    }
}

/// The parameters of a query string, by key.
#[derive(Debug)]
pub struct QueryParams<'buf> {
    data: Vec<(&'buf str, Value<'buf>)>,
}

/// No key stands twice among the entries.
spec fn distinct_keys(data: Seq<(&str, Value)>) -> bool {
    forall|i: int, j: int|
        0 <= i < j < data.len() ==> (#[trigger] data[i]).0@ != (#[trigger] data[j]).0@
}

/// Whether `key` is the key of the entry at `i`.
spec fn key_at(data: Seq<(&str, Value)>, key: Seq<char>, i: int) -> bool {
    0 <= i < data.len() && data[i].0@ == key
}

/// The entries hold exactly what `done` gives: one entry for each key that
/// appears, with that key's values.
spec fn holds(data: Seq<(&str, Value)>, done: Seq<(Seq<char>, Seq<char>)>) -> bool {
    &&& distinct_keys(data)
    &&& forall|i: int|
        0 <= i < data.len() ==> {
            let e = #[trigger] data[i];
            values_of(done, e.0@).len() > 0 && e.1@ == param_value(values_of(done, e.0@))
        }
    &&& forall|k: Seq<char>| #[trigger]
        values_of(done, k).len() > 0 ==> exists|i: int| key_at(data, k, i)
}

/// What adding a pair at the end does to the values of a key.
proof fn lemma_values_of_push(
    done: Seq<(Seq<char>, Seq<char>)>,
    pair: (Seq<char>, Seq<char>),
    key: Seq<char>,
)
    ensures
        values_of(done.push(pair), key) == if pair.0 == key {
            values_of(done, key).push(pair.1)
        } else {
            values_of(done, key)
        },
{
    assert(done.push(pair).drop_last() =~= done);
}

/// Index of the entry with the given key.
fn position(data: &Vec<(&str, Value)>, key: &str) -> (r: Option<usize>)
    ensures
        match r {
            Some(i) => key_at(data@, key@, i as int),
            None => forall|i: int| !key_at(data@, key@, i),
        },
{
    let mut i: usize = 0;
    while i < data.len()
        invariant
            0 <= i <= data@.len(),
            forall|k: int| 0 <= k < i ==> !key_at(data@, key@, k),
        decreases data@.len() - i,
    {
        if str_eq(data[i].0, key) {
            return Some(i);
        }
        i += 1;
    }
    None
}

/// Records one more pair: a new key gets a single value, a known key
/// collects the value after those it has.
fn record<'buf>(
    data: &mut Vec<(&'buf str, Value<'buf>)>,
    key: &'buf str,
    value: &'buf str,
    Ghost(done): Ghost<Seq<(Seq<char>, Seq<char>)>>,
)
    requires
        holds(old(data)@, done),
    ensures
        holds(final(data)@, done.push((key@, value@))),
{
    let ghost pair = (key@, value@);
    let ghost before = data@;
    proof {
        assert forall|k: Seq<char>|
            values_of(done.push(pair), k) == if pair.0 == k {
                values_of(done, k).push(pair.1)
            } else {
                values_of(done, k)
            } by {
            lemma_values_of_push(done, pair, k);
        }
    }
    match position(data, key) {
        Some(i) => {
            let ghost had = values_of(done, key@);
            match &mut data[i].1 {
                Value::Multiple(list) => {
                    list.push(value);
                },
                single => {
                    let first = match single {
                        Value::Single(s) => *s,
                        Value::Multiple(_) => value,
                    };
                    let mut list = Vec::new();
                    list.push(first);
                    list.push(value);
                    *single = Value::Multiple(list);
                },
            }
            proof {
                assert(data@.len() == before.len());
                assert(forall|j: int| 0 <= j < data@.len() ==> data@[j].0@ == before[j].0@);
                assert(forall|j: int| 0 <= j < data@.len() && j != i ==> data@[j] == before[j]);
                assert(data@[i as int].1@ == ParamValue::Multiple(had.push(value@))) by {
                    match before[i as int].1 {
                        Value::Single(s) => {
                            assert(had =~= seq![s@]);
                            assert(data@[i as int].1@->Multiple_0 =~= had.push(value@));
                        },
                        Value::Multiple(list) => {
                            assert(data@[i as int].1@->Multiple_0 =~= had.push(value@));
                        },
                    }
                }
                assert forall|k: Seq<char>| #[trigger]
                    values_of(done.push(pair), k).len() > 0 implies exists|j: int|
                    key_at(data@, k, j) by {
                    if k == key@ {
                        assert(key_at(data@, k, i as int));
                    } else {
                        let j = choose|j: int| key_at(before, k, j);
                        assert(key_at(data@, k, j));
                    }
                }
            }
        },
        None => {
            data.push((key, Value::Single(value)));
            proof {
                let n = before.len() as int;
                assert(forall|j: int| 0 <= j < n ==> data@[j] == before[j]);
                assert(values_of(done, key@).len() == 0) by {
                    if values_of(done, key@).len() > 0 {
                        let j = choose|j: int| key_at(before, key@, j);
                        assert(key_at(before, key@, j));
                    }
                }
                assert forall|a: int, b: int| 0 <= a < b < data@.len() implies (
                #[trigger] data@[a]).0@ != (#[trigger] data@[b]).0@ by {
                    if b == n {
                        assert(!key_at(before, key@, a));
                    }
                }
                assert forall|k: Seq<char>| #[trigger]
                    values_of(done.push(pair), k).len() > 0 implies exists|j: int|
                    key_at(data@, k, j) by {
                    if k == key@ {
                        assert(key_at(data@, k, n));
                    } else {
                        let j = choose|j: int| key_at(before, k, j);
                        assert(key_at(data@, k, j));
                    }
                }
            }
        },
    }
}

impl<'buf> View for QueryParams<'buf> {
    type V = Map<Seq<char>, ParamValue>;

    closed spec fn view(&self) -> Map<Seq<char>, ParamValue> {
        Map::new(
            |k: Seq<char>| exists|i: int| key_at(self.data@, k, i),
            |k: Seq<char>| self.data@[choose|i: int| key_at(self.data@, k, i)].1@,
        )
    }
}

impl<'buf> QueryParams<'buf> {
    #[verifier::type_invariant]
    spec fn well_formed(&self) -> bool {
        distinct_keys(self.data@)
    }

    /// Reads a query string. Every string is a query string: this never
    /// fails.
    pub fn from(s: &'buf str) -> (r: QueryParams<'buf>)
        ensures
            r@ == query_map(s@),
    {
        let mut data: Vec<(&'buf str, Value<'buf>)> = Vec::new();
        let mut rest = s;
        let ghost mut done: Seq<(Seq<char>, Seq<char>)> = Seq::empty();
        let mut more = true;
        while more
            invariant
                holds(data@, done),
                more ==> pairs(s@) == done + pairs(rest@),
                !more ==> pairs(s@) == done,
            decreases rest@.len() + if more { 1int } else { 0int },
        {
            let piece = match split_at_char(rest, '&') {
                Some((piece, tail)) => {
                    proof {
                        assert(done + pairs(rest@) =~= done.push(pair_of(piece@)) + pairs(tail@));
                    }
                    rest = tail;
                    piece
                },
                None => {
                    proof {
                        assert(done + pairs(rest@) =~= done.push(pair_of(rest@)));
                    }
                    more = false;
                    rest
                },
            };
            let (key, value) = match split_at_char(piece, '=') {
                Some(pair) => pair,
                None => (piece, ""),
            };
            proof {
                reveal_strlit("");
                assert(value@ =~= pair_of(piece@).1);
            }
            record(&mut data, key, value, Ghost(done));
            proof {
                done = done.push((key@, value@));
            }
        }
        let r = QueryParams { data };
        proof {
            assert forall|k: Seq<char>| #[trigger]
                r@.contains_key(k) implies r@[k] == param_value(values_of(done, k)) by {
                let i = choose|i: int| key_at(r.data@, k, i);
                assert(key_at(r.data@, k, i));
            }
            assert forall|k: Seq<char>| r@.contains_key(k) <==> values_of(done, k).len() > 0 by {
                if r@.contains_key(k) {
                    let i = choose|i: int| key_at(r.data@, k, i);
                    assert(key_at(r.data@, k, i));
                }
            }
            assert(r@ =~= query_map(s@));
        }
        r
    }

    /// The value of `key`, or `None` where the query string did not hold it.
    pub fn get(&self, key: &str) -> (r: Option<&Value<'buf>>)
        ensures
            match r {
                Some(v) => self@.contains_key(key@) && v@ == self@[key@],
                None => !self@.contains_key(key@),
            },
    {
        proof {
            use_type_invariant(self);
        }
        match position(&self.data, key) {
            Some(i) => {
                proof {
                    let j = choose|j: int| key_at(self.data@, key@, j);
                    assert(key_at(self.data@, key@, i as int));
                    assert(j == i);
                }
                Some(&self.data[i].1)
            },
            None => None,
        }
    }
}

} // verus!
