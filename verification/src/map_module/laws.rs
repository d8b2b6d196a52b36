//! What each function of the `map` module answers.
use vstd::prelude::*;
use vstd::string::*;

use crate::map_module::{
    answers, called, comes_to, first_error, function_name, item_of, message_of, result_ranks,
    sort_finished, update_finished, Answer, Failure, HeapView, Items, MapFunction, Output, Refusal,
    Reply,
};
use crate::value_map::{
    has_distinct_keys, has_key, key_ranks, law_insert_then_get,
    law_new_key_comes_last, law_sort_keeps_entries, law_sort_keys_orders_keys, law_sort_order,
    law_value_of_key, Entry, Kind, Value,
};

verus! {

/// The first error comes before every other one.
pub proof fn law_first_error<E>(results: Seq<Result<Value, E>>, i: int, error: E)
    requires
        0 <= i < results.len(),
        results[i] == Err::<Value, E>(error),
        forall|j: int| 0 <= j < i ==> (#[trigger] results[j]) is Ok,
    ensures
        first_error(results) == Some(error),
    decreases results.len(),
{
    if i > 0 {
        let rest = results.skip(1);
        assert(results[0] is Ok);
        assert forall|j: int| 0 <= j < i - 1 implies (#[trigger] rest[j]) is Ok by {
            assert(results[j + 1] is Ok);
        }
        law_first_error(rest, i - 1, error);
    }
}

/// There is no first error exactly if nothing has failed.
pub proof fn law_no_error<E>(results: Seq<Result<Value, E>>)
    ensures
        first_error(results) is None <==> forall|j: int|
            0 <= j < results.len() ==> (#[trigger] results[j]) is Ok,
    decreases results.len(),
{
    if results.len() > 0 {
        let rest = results.skip(1);
        law_no_error(rest);
        if first_error(results) is None {
            assert forall|j: int| 0 <= j < results.len() implies (#[trigger] results[j]) is Ok by {
                if j > 0 {
                    assert(rest[j - 1] is Ok);
                }
            }
        }
        if forall|j: int| 0 <= j < results.len() ==> (#[trigger] results[j]) is Ok {
            assert forall|j: int| 0 <= j < rest.len() implies (#[trigger] rest[j]) is Ok by {
                assert(results[j + 1] is Ok);
            }
            assert(results[0] is Ok);
        }
    }
}

/// A result ranks as its value does, and a failure as the empty value does.
pub proof fn law_result_ranks<E>(results: Seq<Result<Value, E>>, empty: Value, i: int)
    requires
        0 <= i < results.len(),
    ensures
        result_ranks(results, empty).len() == results.len(),
        results[i] matches Ok(value) ==> result_ranks(results, empty)[i] == value.rank,
        results[i] is Err ==> result_ranks(results, empty)[i] == empty.rank,
{
}

/// A sort by results that were all found puts the entries in the order of the ranks of their
/// results: from one entry to a later one they never go down, and where they are the same the
/// entries keep their order.
pub proof fn law_sorted_by_results<E>(
    heap: HeapView,
    map: usize,
    results: Seq<Result<Value, E>>,
    i: int,
    j: int,
    a: int,
    b: int,
)
    requires
        heap.well_formed(),
        map < heap.maps.len(),
        results.len() == heap.maps[map as int].len(),
        forall|k: int| 0 <= k < results.len() ==> (#[trigger] results[k]) is Ok,
        0 <= i < j < results.len(),
        0 <= a < results.len(),
        0 <= b < results.len(),
        sort_finished(heap, map, results).0.maps[map as int][i] == heap.maps[map as int][a],
        sort_finished(heap, map, results).0.maps[map as int][j] == heap.maps[map as int][b],
    ensures
        ({
            let first = results[a]->Ok_0.rank;
            let second = results[b]->Ok_0.rank;
            first < second || (first == second && a < b)
        }),
        sort_finished(heap, map, results).1 == Ok::<Value, (Seq<char>, E)>(heap.empty),
{
    let entries = heap.maps[map as int];
    assert(has_distinct_keys(entries));
    assert(results[a] is Ok && results[b] is Ok);
    law_sort_order(entries, result_ranks(results, heap.empty), i, j, a, b);
    law_no_error(results);
}

/// A sort by results keeps the entries of its map, however the results came out, and touches no
/// other map. The first failure is what it comes to, under the name of the function.
pub proof fn law_finished_sort<E>(
    heap: HeapView,
    map: usize,
    results: Seq<Result<Value, E>>,
    other: int,
    i: int,
    error: E,
)
    requires
        map < heap.maps.len(),
        results.len() == heap.maps[map as int].len(),
        0 <= other < heap.maps.len(),
    ensures
        ({
            let (after, reply) = sort_finished(heap, map, results);
            &&& after.maps.len() == heap.maps.len()
            &&& after.maps[map as int].to_multiset() == heap.maps[map as int].to_multiset()
            &&& other != map ==> after.maps[other] == heap.maps[other]
            &&& after.empty == heap.empty
            &&& 0 <= i < results.len() && results[i] == Err::<Value, E>(error) && (forall|j: int|
                0 <= j < i ==> (#[trigger] results[j]) is Ok) ==> reply == Err::<
                Value,
                (Seq<char>, E),
            >(("map.sort"@, error))
        }),
{
    law_sort_keeps_entries(heap.maps[map as int], result_ranks(results, heap.empty));
    if 0 <= i < results.len() && results[i] == Err::<Value, E>(error) && (forall|j: int|
        0 <= j < i ==> (#[trigger] results[j]) is Ok) {
        law_first_error(results, i, error);
    }
}

/// An update comes to the result of its function, which is then the value for the key. An error is
/// passed on under the name of the function, and changes nothing.
pub proof fn law_finished_update<E>(
    heap: HeapView,
    map: Value,
    key: Value,
    value: Value,
    error: E,
    other: int,
)
    requires
        heap.well_formed(),
        heap.map_of(map) is Some,
        0 <= other < heap.maps.len(),
        other != heap.map_of(map)->0,
    ensures
        ({
            let place = heap.map_of(map)->0;
            let (after, reply) = update_finished::<E>(heap, place, key, Ok(value));
            let (left, failure) = update_finished::<E>(heap, place, key, Err(error));
            &&& reply == Ok::<Value, (Seq<char>, E)>(value)
            &&& called(after, MapFunction::Get, seq![map, key]).1 == answer(Reply::Value(value))
            &&& after.maps.len() == heap.maps.len()
            &&& after.maps[other] == heap.maps[other]
            &&& after.empty == heap.empty
            &&& left == heap
            &&& failure == Err::<Value, (Seq<char>, E)>(("map.update"@, error))
        }),
{
    law_insert_then_get(heap.maps[heap.map_of(map)->0 as int], key, value, key.id);
}

/// The call is answered.
pub open spec fn answer(reply: Reply) -> Answer {
    Ok(reply)
}

/// A value refers to a map exactly if it is one and the heap has it.
pub proof fn law_map_of(heap: HeapView, value: Value, map: usize)
    ensures
        heap.map_of(value) == Some(map) <==> value.kind == Kind::Dict(map) && map
            < heap.maps.len(),
{
}

/// A key that is there is found with the value of its entry. Inserting a value for it and removing
/// it are answered with that value too.
pub proof fn law_found_key(heap: HeapView, map: Value, key: Value, value: Value, i: int)
    requires
        heap.well_formed(),
        heap.map_of(map) is Some,
        0 <= i < heap.maps[heap.map_of(map)->0 as int].len(),
        heap.maps[heap.map_of(map)->0 as int][i].0.id == key.id,
    ensures
        ({
            let found = answer(Reply::Value(heap.maps[heap.map_of(map)->0 as int][i].1));
            &&& called(heap, MapFunction::ContainsKey, seq![map, key]).1 == answer(
                Reply::Bool(true),
            )
            &&& called(heap, MapFunction::Get, seq![map, key]).1 == found
            &&& key.immutable ==> {
                &&& called(heap, MapFunction::Insert, seq![map, key]).1 == found
                &&& called(heap, MapFunction::Insert, seq![map, key, value]).1 == found
                &&& called(heap, MapFunction::Remove, seq![map, key]).1 == found
            }
        }),
{
    law_value_of_key(heap.maps[heap.map_of(map)->0 as int], i, key.id);
}

/// A key that isn't there is answered with the empty value. Inserting a value for it adds an entry
/// behind the others, and removing it changes nothing.
pub proof fn law_missing_key(heap: HeapView, map: Value, key: Value, value: Value)
    requires
        heap.well_formed(),
        heap.map_of(map) is Some,
        forall|i: int|
            0 <= i < heap.maps[heap.map_of(map)->0 as int].len() ==> (
            #[trigger] heap.maps[heap.map_of(map)->0 as int][i]).0.id != key.id,
    ensures
        ({
            let place = heap.map_of(map)->0 as int;
            let missing = answer(Reply::Value(heap.empty));
            &&& called(heap, MapFunction::ContainsKey, seq![map, key]).1 == answer(
                Reply::Bool(false),
            )
            &&& called(heap, MapFunction::Get, seq![map, key]).1 == missing
            &&& key.immutable ==> {
                &&& called(heap, MapFunction::Insert, seq![map, key, value]).1 == missing
                &&& called(heap, MapFunction::Insert, seq![map, key, value]).0.maps[place]
                    == heap.maps[place].push((key, value))
                &&& called(heap, MapFunction::Remove, seq![map, key]) == (heap, missing)
            }
        }),
{
    let place = heap.map_of(map)->0 as int;
    law_value_of_key(heap.maps[place], 0, key.id);
    law_new_key_comes_last(heap.maps[place], key, value);
    assert(heap.maps.update(place, heap.maps[place]) =~= heap.maps);
}

/// Inserting a value for a key that is there replaces the value in its entry and nothing else.
pub proof fn law_replaced_value(heap: HeapView, map: Value, key: Value, value: Value, i: int)
    requires
        heap.well_formed(),
        heap.map_of(map) is Some,
        key.immutable,
        0 <= i < heap.maps[heap.map_of(map)->0 as int].len(),
        heap.maps[heap.map_of(map)->0 as int][i].0.id == key.id,
    ensures
        ({
            let before = heap.maps[heap.map_of(map)->0 as int];
            let after = called(
                heap,
                MapFunction::Insert,
                seq![map, key, value],
            ).0.maps[heap.map_of(map)->0 as int];
            &&& after.len() == before.len()
            &&& after[i] == (before[i].0, value)
            &&& forall|j: int| 0 <= j < before.len() && j != i ==> after[j] == before[j]
        }),
{
    let before = heap.maps[heap.map_of(map)->0 as int];
    law_value_of_key(before, i, key.id);
}

/// A key that is inserted without a value is inserted with the empty value.
pub proof fn law_insert_without_value(heap: HeapView, map: Value, key: Value)
    requires
        heap.map_of(map) is Some,
        key.immutable,
    ensures
        called(heap, MapFunction::Insert, seq![map, key]) == called(
            heap,
            MapFunction::Insert,
            seq![map, key, heap.empty],
        ),
{
}

/// The size of a map is the number of its entries, and a map without entries is empty.
pub proof fn law_size(heap: HeapView, map: Value, size: usize)
    requires
        heap.map_of(map) is Some,
        size == heap.maps[heap.map_of(map)->0 as int].len(),
    ensures
        called(heap, MapFunction::Size, seq![map]).1 == answer(Reply::Size(size)),
        called(heap, MapFunction::IsEmpty, seq![map]).1 == answer(Reply::Bool(size == 0)),
{
}

/// An index gives the key and the value of the entry there, and the empty value behind the last
/// entry. Numbers below zero are refused.
pub proof fn law_entry_at_index(heap: HeapView, map: Value, at: Value, index: usize)
    requires
        heap.map_of(map) is Some,
    ensures
        ({
            let entries = heap.maps[heap.map_of(map)->0 as int];
            let found = called(heap, MapFunction::GetIndex, seq![map, at]).1;
            &&& at.kind == (Kind::Number { negative: false, index }) ==> found == (if index
                < entries.len() {
                answer(Reply::Pair(entries[index as int].0, entries[index as int].1))
            } else {
                answer(Reply::Value(heap.empty))
            })
            &&& at.kind == (Kind::Number { negative: true, index }) ==> found == refusal(
                "map.get_index: Negative indices aren't allowed"@,
                Seq::empty(),
            )
            &&& !(at.kind is Number) ==> found == refusal(
                "map.get_index: Expected map and index as arguments"@,
                Seq::empty(),
            )
        }),
{
}

/// The call is refused.
pub open spec fn refusal(text: Seq<char>, found: Seq<Value>) -> Answer {
    Err((text, found))
}

/// A deep copy is made of the map itself, and each iterator runs over the map that it was asked
/// for: one over the entries, one over the keys and one over the values.
pub proof fn law_asked_for_map(heap: HeapView, map: Value, place: usize)
    requires
        heap.map_of(map) == Some(place),
    ensures
        called(heap, MapFunction::DeepCopy, seq![map]).1 == answer(Reply::DeepCopy(map)),
        called(heap, MapFunction::Iter, seq![map]).1 == answer(
            Reply::Iterate { map: place, items: Items::Entries },
        ),
        called(heap, MapFunction::Keys, seq![map]).1 == answer(
            Reply::Iterate { map: place, items: Items::Keys },
        ),
        called(heap, MapFunction::Values, seq![map]).1 == answer(
            Reply::Iterate { map: place, items: Items::Values },
        ),
        called(heap, MapFunction::Clear, seq![map]).1 == answer(Reply::Value(heap.empty)),
{
}

/// An iterator over keys yields the key of an entry, one over values its value, and one over
/// entries both, the key first.
pub proof fn law_items(key: Value, value: Value)
    ensures
        item_of(Items::Keys, (key, value)) == Output::Value(key),
        item_of(Items::Values, (key, value)) == Output::Value(value),
        item_of(Items::Entries, (key, value)) == Output::ValuePair(key, value),
{
}

/// A sort without a function leaves the keys in order and the entries as they are, and comes to the
/// empty value.
pub proof fn law_sort_by_keys(heap: HeapView, map: Value, i: int, j: int)
    requires
        heap.map_of(map) is Some,
        0 <= i < j < heap.maps[heap.map_of(map)->0 as int].len(),
    ensures
        ({
            let (after, reply) = called(heap, MapFunction::Sort, seq![map]);
            let before = heap.maps[heap.map_of(map)->0 as int];
            let entries = after.maps[heap.map_of(map)->0 as int];
            &&& reply == answer(Reply::Value(heap.empty))
            &&& entries.to_multiset() == before.to_multiset()
            &&& entries[i].0.rank <= entries[j].0.rank
        }),
{
    let before = heap.maps[heap.map_of(map)->0 as int];
    law_sort_keys_orders_keys(before, i, j);
    law_sort_keeps_entries(before, key_ranks(before));
}

/// A sort with a function first calls for the results of the function, and changes nothing before
/// it has them. With fewer than two entries there is nothing to do.
pub proof fn law_sort_by_function(heap: HeapView, map: Value, function: Value, place: usize)
    requires
        heap.map_of(map) == Some(place),
    ensures
        ({
            let (after, reply) = called(heap, MapFunction::Sort, seq![map, function]);
            &&& after == heap
            &&& function.callable && heap.maps[place as int].len() >= 2 ==> reply == answer(
                Reply::RunForSort { map: place, function },
            )
            &&& function.callable && heap.maps[place as int].len() < 2 ==> reply == answer(
                Reply::Value(heap.empty),
            )
            &&& !function.callable ==> reply == refusal(
                "map.sort: Expected map as argument"@,
                Seq::empty(),
            )
        }),
{
}

/// An update without a default has the empty value as its default.
pub proof fn law_update_without_default(heap: HeapView, map: Value, key: Value, function: Value)
    requires
        heap.map_of(map) is Some,
        key.immutable,
        function.callable,
    ensures
        called(heap, MapFunction::Update, seq![map, key, function]) == called(
            heap,
            MapFunction::Update,
            seq![map, key, heap.empty, function],
        ),
{
}

/// An update of a key that is there changes nothing before its function has run, and one of a key
/// that isn't adds the default behind the other entries.
pub proof fn law_update_starts(
    heap: HeapView,
    map: Value,
    key: Value,
    default: Value,
    function: Value,
)
    requires
        heap.well_formed(),
        heap.map_of(map) is Some,
        key.immutable,
        function.callable,
    ensures
        ({
            let place = heap.map_of(map)->0 as int;
            let after = called(heap, MapFunction::Update, seq![map, key, default, function]).0;
            &&& has_key(heap.maps[place], key.id) ==> after == heap
            &&& !has_key(heap.maps[place], key.id) ==> after.maps[place] == heap.maps[place].push(
                (key, default),
            )
        }),
{
}

/// What the arguments of a call have to be.
pub open spec fn are_taken(heap: HeapView, function: MapFunction, args: Seq<Value>) -> bool {
    let map = args.len() > 0 && heap.map_of(args[0]) is Some;
    match function {
        MapFunction::Clear
        | MapFunction::Copy
        | MapFunction::DeepCopy
        | MapFunction::IsEmpty
        | MapFunction::Iter
        | MapFunction::Keys
        | MapFunction::Size
        | MapFunction::Values => map && args.len() == 1,
        MapFunction::ContainsKey | MapFunction::Get => map && args.len() == 2,
        MapFunction::GetIndex => map && args.len() == 2 && (args[1].kind matches Kind::Number {
            negative,
            ..
        } && !negative),
        MapFunction::Insert => map && (args.len() == 2 || args.len() == 3) && args[1].immutable,
        MapFunction::Remove => map && args.len() == 2 && args[1].immutable,
        MapFunction::Sort => map && (args.len() == 1 || (args.len() == 2 && args[1].callable)),
        MapFunction::Update => map && (args.len() == 3 || args.len() == 4) && args[1].immutable
            && args.last().callable,
    }
}

/// A call is answered exactly if its arguments are what the function takes.
pub proof fn law_taken_arguments(heap: HeapView, function: MapFunction, args: Seq<Value>)
    ensures
        called(heap, function, args).1 is Ok <==> are_taken(heap, function, args),
{
}

/// A refusal says which function refuses and what it expects. Without any argument, asking for the
/// size or whether a map is empty is refused in the words of another function.
pub proof fn law_refusal_texts(heap: HeapView, function: MapFunction, args: Seq<Value>)
    requires
        !are_taken(heap, function, args),
        function == MapFunction::GetIndex ==> args.len() != 2,
    ensures
        called(heap, function, args).1 matches Err((text, found)) && text == (match function {
            MapFunction::Clear => "map.clear: Expected map as argument"@,
            MapFunction::ContainsKey => "map.contains_key: Expected map and key as arguments"@,
            MapFunction::Copy => "map.copy: Expected map as argument"@,
            MapFunction::DeepCopy => "map.deep_copy: Expected map as argument"@,
            MapFunction::Get => "map.get: Expected map and key as arguments"@,
            MapFunction::GetIndex => "map.get_index: Expected map and index as arguments"@,
            MapFunction::Insert => "map.insert: Expected map and key as arguments"@,
            MapFunction::IsEmpty => if args.len() == 0 {
                "map.contains_key: Expected map and key as arguments"@
            } else {
                "map.is_empty: Expected map as argument"@
            },
            MapFunction::Iter => "map.iter: Expected map as argument"@,
            MapFunction::Keys => "map.keys: Expected map as argument"@,
            MapFunction::Remove => "map.remove: Expected map and key as arguments"@,
            MapFunction::Sort => "map.sort: Expected map as argument"@,
            MapFunction::Size => if args.len() == 0 {
                "map.contains_key: Expected map and key as arguments"@
            } else {
                "map.size: Expected map as argument"@
            },
            MapFunction::Update => "map.update: Expected map, key, and function as arguments"@,
            MapFunction::Values => "map.values: Expected map as argument"@,
        }),
{
}

/// A refusal names the arguments that the function would have taken a map and a key from: two of
/// them, or one, where there are as many. The other functions name none.
pub proof fn law_refused_arguments(heap: HeapView, function: MapFunction, args: Seq<Value>)
    requires
        !are_taken(heap, function, args),
    ensures
        called(heap, function, args).1 matches Err((text, found)) && {
            let count: int = match function {
                MapFunction::ContainsKey
                | MapFunction::Get
                | MapFunction::Insert
                | MapFunction::Remove => 2,
                MapFunction::IsEmpty
                | MapFunction::Iter
                | MapFunction::Keys
                | MapFunction::Size
                | MapFunction::Values => 1,
                _ => 0,
            };
            &&& args.len() >= count ==> found.len() == count
            &&& args.len() < count ==> found.len() == 0
            &&& forall|i: int| 0 <= i < found.len() ==> found[i] == args[i]
        },
{
}

/// A message starts with the text of its refusal, and each name of a type is in it within quotes.
pub proof fn law_message(text: Seq<char>, first: Seq<char>, second: Seq<char>)
    ensures
        message_of(text, Seq::empty()) == text,
        message_of(text, seq![first]) == text + (", found '"@ + (first + "'"@)),
        message_of(text, seq![first, second]) == text + (", found '"@ + (first + ("' and '"@ + (
        second + "'"@)))),
{
    assert(message_of(text, seq![first]) =~= text + (", found '"@ + (first + "'"@)));
    assert(message_of(text, seq![first, second]) =~= text + (", found '"@ + (first + ("' and '"@ + (
    second + "'"@)))));
}

/// Each function is known by its name.
pub proof fn law_function_names()
    ensures
        function_name(MapFunction::Clear) == "clear"@,
        function_name(MapFunction::ContainsKey) == "contains_key"@,
        function_name(MapFunction::Copy) == "copy"@,
        function_name(MapFunction::DeepCopy) == "deep_copy"@,
        function_name(MapFunction::Get) == "get"@,
        function_name(MapFunction::GetIndex) == "get_index"@,
        function_name(MapFunction::Insert) == "insert"@,
        function_name(MapFunction::IsEmpty) == "is_empty"@,
        function_name(MapFunction::Iter) == "iter"@,
        function_name(MapFunction::Keys) == "keys"@,
        function_name(MapFunction::Remove) == "remove"@,
        function_name(MapFunction::Sort) == "sort"@,
        function_name(MapFunction::Size) == "size"@,
        function_name(MapFunction::Update) == "update"@,
        function_name(MapFunction::Values) == "values"@,
{
}

/// A call is answered as expected exactly if its reply is the expected one, or its refusal has the
/// expected text and arguments.
pub proof fn law_answers(reply: Reply, refusal: Refusal, expected: Answer)
    ensures
        answers(Ok(reply), expected) <==> expected == Ok::<Reply, (Seq<char>, Seq<Value>)>(reply),
        answers(Err(refusal), expected) <==> expected == Err::<Reply, (Seq<char>, Seq<Value>)>(
            (refusal.text@, refusal.found@),
        ),
{
}

/// Running a function comes to what is expected exactly if its value is the expected one, or its
/// error is, under the expected name.
pub proof fn law_comes_to<E>(
    value: Value,
    failure: Failure<E>,
    expected: Result<Value, (Seq<char>, E)>,
)
    ensures
        comes_to(Ok(value), expected) <==> expected == Ok::<Value, (Seq<char>, E)>(value),
        comes_to(Err(failure), expected) <==> expected == Err::<Value, (Seq<char>, E)>(
            (failure.prefix@, failure.error),
        ),
{
}

/// A new heap has no maps, and keeps the value that stands for nothing. A new map comes last and is
/// empty, and the others stay as they are.
pub proof fn law_new_maps(heap: HeapView, empty: Value, map: int)
    ensures
        HeapView::without_maps(empty).maps.len() == 0,
        HeapView::without_maps(empty).empty == empty,
        ({
            let after = heap.with_new_map();
            &&& after.empty == heap.empty
            &&& after.maps.len() == heap.maps.len() + 1
            &&& after.maps.last().len() == 0
            &&& 0 <= map < heap.maps.len() ==> after.maps[map] == heap.maps[map]
        }),
{
}

/// Changing a map replaces its entries, and no others.
pub proof fn law_changed_map(heap: HeapView, map: usize, entries: Seq<Entry>, other: int)
    requires
        map < heap.maps.len(),
    ensures
        ({
            let after = heap.with_map(map, entries);
            &&& after.empty == heap.empty
            &&& after.maps.len() == heap.maps.len()
            &&& after.maps[map as int] == entries
            &&& 0 <= other < heap.maps.len() && other != map ==> after.maps[other]
                == heap.maps[other]
        }),
{
}

} // verus!
