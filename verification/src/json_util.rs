use crate::json_value::{get_field, get_item, json_doc, JsonDoc};
use vstd::prelude::*;

verus! {

/// One step of a path into a document: into an object by name, or into an array
/// by position.
#[derive(Debug)]
pub enum JsonKey<'a> {
    String(&'a str),
    Index(usize),
}

/// A step of a path, as a mathematical value.
pub enum PathStep {
    Field(Seq<char>),
    Index(int),
}

impl<'a> View for JsonKey<'a> {
    type V = PathStep;

    open spec fn view(&self) -> PathStep {
        match self {
            JsonKey::String(name) => PathStep::Field(name@),
            JsonKey::Index(index) => PathStep::Index(*index as int),
        }
    }
}

impl<'a> From<&'a str> for JsonKey<'a> {
    fn from(s: &'a str) -> (key: Self) {
        JsonKey::String(s)
    }
}

impl<'a> vstd::std_specs::convert::FromSpecImpl<&'a str> for JsonKey<'a> {
    open spec fn obeys_from_spec() -> bool {
        true
    }

    open spec fn from_spec(s: &'a str) -> Self {
        JsonKey::String(s)
    }
}

impl From<usize> for JsonKey<'_> {
    fn from(i: usize) -> (key: Self) {
        JsonKey::Index(i)
    }
}

impl vstd::std_specs::convert::FromSpecImpl<usize> for JsonKey<'_> {
    open spec fn obeys_from_spec() -> bool {
        true
    }

    open spec fn from_spec(i: usize) -> Self {
        JsonKey::Index(i)
    }
}

/// The steps that `keys` stand for.
pub open spec fn path_of(keys: Seq<JsonKey>) -> Seq<PathStep> {
    keys.map_values(|k: JsonKey| k@)
}

/// Where one step leads from `doc`, if anywhere.
pub open spec fn step_into(doc: JsonDoc, step: PathStep) -> Option<JsonDoc> {
    match step {
        PathStep::Field(name) => doc.field(name),
        PathStep::Index(index) => doc.item(index),
    }
}

/// Where `path` leads from `doc`: every step is taken from where the one before
/// it arrived, and nothing is reached as soon as one step leads nowhere.
pub open spec fn dig(doc: JsonDoc, path: Seq<PathStep>) -> Option<JsonDoc>
    decreases path.len(),
{
    if path.len() == 0 {
        Some(doc)
    } else {
        match dig(doc, path.drop_last()) {
            Some(inner) => step_into(inner, path.last()),
            None => None,
        }
    }
}

/// Follows `keys` from `source` and hands out the value that they lead to.
pub fn dig_json<'a>(source: &'a serde_json::Value, keys: &Vec<JsonKey>) -> (r: Option<
    &'a serde_json::Value,
>)
    ensures
        match r {
            Some(value) => dig(json_doc(*source), path_of(keys@)) == Some(json_doc(*value)),
            None => dig(json_doc(*source), path_of(keys@)) is None,
        },
{
    let mut value = source;
    let mut i: usize = 0;
    while i < keys.len()
        invariant
            i <= keys.len(),
            dig(json_doc(*source), path_of(keys@).take(i as int)) == Some(json_doc(*value)),
        decreases keys.len() - i,
    {
        let ghost path = path_of(keys@);
        assert(path.take(i + 1).drop_last() == path.take(i as int));
        assert(path.take(i + 1).last() == keys@[i as int]@);
        let next = match &keys[i] {
            JsonKey::String(name) => get_field(value, name),
            JsonKey::Index(index) => get_item(value, *index),
        };
        match next {
            Some(inner) => {
                value = inner;
            },
            None => {
                proof {
                    lemma_dig_prefix(json_doc(*source), path, i + 1);
                }
                return None;
            },
        }
        i += 1;
    }
    assert(path_of(keys@).take(i as int) == path_of(keys@));
    Some(value)
}

/// A path that leads nowhere after its first `n` steps leads nowhere at all.
pub proof fn lemma_dig_prefix(doc: JsonDoc, path: Seq<PathStep>, n: int)
    requires
        0 <= n <= path.len(),
        dig(doc, path.take(n)) is None,
    ensures
        dig(doc, path) is None,
    decreases path.len(),
{
    if n == path.len() {
        assert(path.take(n) == path);
    } else {
        assert(path.drop_last().take(n) == path.take(n));
        lemma_dig_prefix(doc, path.drop_last(), n);
    }
}

/// A path whose steps all resolve leads to where its last step arrives: `stops`
/// are the documents that the steps pass through, from `doc` on.
pub proof fn lemma_dig_resolves(doc: JsonDoc, path: Seq<PathStep>, stops: Seq<JsonDoc>)
    requires
        stops.len() == path.len() + 1,
        stops[0] == doc,
        forall|i: int|
            0 <= i < path.len() ==> step_into(stops[i], #[trigger] path[i]) == Some(stops[i + 1]),
    ensures
        dig(doc, path) == Some(stops.last()),
    decreases path.len(),
{
    if path.len() > 0 {
        let front = path.drop_last();
        let passed = stops.drop_last();
        assert forall|i: int| 0 <= i < front.len() implies step_into(
            passed[i],
            #[trigger] front[i],
        ) == Some(passed[i + 1]) by {
            assert(front[i] == path[i]);
        }
        lemma_dig_resolves(doc, front, passed);
        assert(passed.last() == stops[path.len() - 1]);
        assert(path.last() == path[path.len() - 1]);
    }
}

/// A path leads nowhere where one of its steps does not resolve: the steps before
/// step `n` pass through `stops`, and step `n` leads nowhere from the last of them.
pub proof fn lemma_dig_fails_at(doc: JsonDoc, path: Seq<PathStep>, stops: Seq<JsonDoc>, n: int)
    requires
        0 <= n < path.len(),
        stops.len() == n + 1,
        stops[0] == doc,
        forall|i: int|
            0 <= i < n ==> step_into(stops[i], #[trigger] path[i]) == Some(stops[i + 1]),
        step_into(stops[n], path[n]) is None,
    ensures
        dig(doc, path) is None,
{
    let front = path.take(n);
    assert forall|i: int| 0 <= i < front.len() implies step_into(stops[i], #[trigger] front[i])
        == Some(stops[i + 1]) by {
        assert(front[i] == path[i]);
    }
    lemma_dig_resolves(doc, front, stops);
    let upto = path.take(n + 1);
    assert(upto.drop_last() == front);
    assert(upto.last() == path[n]);
    lemma_dig_prefix(doc, path, n + 1);
}

/// To follow one path and then another is to follow the two as one.
pub proof fn lemma_dig_in_two(doc: JsonDoc, first: Seq<PathStep>, second: Seq<PathStep>)
    ensures
        dig(doc, first + second) == match dig(doc, first) {
            Some(inner) => dig(inner, second),
            None => None,
        },
    decreases second.len(),
{
    if second.len() == 0 {
        assert(first + second == first);
    } else {
        assert((first + second).drop_last() == first + second.drop_last());
        assert((first + second).last() == second.last());
        lemma_dig_in_two(doc, first, second.drop_last());
    }
}

} // verus!
