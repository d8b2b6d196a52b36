use koto::map_module::{
    item, make_module, Heap, Items, MapFunction, Output, Refusal, Reply,
};
use koto::value_map::{Kind, Value, ValueMap};

fn key(id: u64) -> Value {
    Value { id, rank: id, kind: Kind::Other, immutable: true, callable: false }
}

fn ranked(id: u64, rank: u64) -> Value {
    Value { rank, ..key(id) }
}

fn function() -> Value {
    Value { callable: true, ..key(900) }
}

fn empty() -> Value {
    key(0)
}

fn map_value(map: usize) -> Value {
    Value { id: 800, rank: 0, kind: Kind::Dict(map), immutable: false, callable: false }
}

fn index(negative: bool, index: usize) -> Value {
    Value { kind: Kind::Number { negative, index }, ..key(700) }
}

/// A heap with one map, which holds the given entries.
fn heap(entries: &[(Value, Value)]) -> Heap {
    let mut heap = Heap::new(empty());
    let map = heap.add_map();
    for (k, v) in entries.iter() {
        heap.call(MapFunction::Insert, &vec![map_value(map), *k, *v]).unwrap();
    }
    heap
}

fn keys(heap: &Heap, map: usize) -> Vec<u64> {
    (0..heap.entry_count(map)).map(|i| heap.entry(map, i).unwrap().0.id).collect()
}

fn call(heap: &mut Heap, function: MapFunction, args: &[Value]) -> Reply {
    heap.call(function, &args.to_vec()).unwrap()
}

fn refused(heap: &mut Heap, function: MapFunction, args: &[Value]) -> String {
    let refusal: Refusal = heap.call(function, &args.to_vec()).unwrap_err();
    let names = refusal.found.iter().map(|v| format!("T{}", v.id)).collect();
    refusal.message(&names)
}

#[test]
fn module_functions() {
    let names: Vec<&str> = make_module().iter().map(|(name, _)| *name).collect();
    assert_eq!(
        names,
        [
            "clear",
            "contains_key",
            "copy",
            "deep_copy",
            "get",
            "get_index",
            "insert",
            "is_empty",
            "iter",
            "keys",
            "remove",
            "sort",
            "size",
            "update",
            "values"
        ]
    );
    assert_eq!(make_module()[6].1, MapFunction::Insert);
}

#[test]
fn clear() {
    let mut h = heap(&[(key(1), key(2))]);
    assert_eq!(call(&mut h, MapFunction::Clear, &[map_value(0)]), Reply::Value(empty()));
    assert_eq!(h.entry_count(0), 0);
    assert_eq!(call(&mut h, MapFunction::IsEmpty, &[map_value(0)]), Reply::Bool(true));
    assert_eq!(call(&mut h, MapFunction::Size, &[map_value(0)]), Reply::Size(0));
    assert_eq!(
        refused(&mut h, MapFunction::Clear, &[key(1)]),
        "map.clear: Expected map as argument"
    );
}

#[test]
fn contains_key_and_get() {
    let mut h = heap(&[(key(1), key(2))]);
    let m = map_value(0);
    assert_eq!(call(&mut h, MapFunction::ContainsKey, &[m, key(1)]), Reply::Bool(true));
    assert_eq!(call(&mut h, MapFunction::ContainsKey, &[m, key(2)]), Reply::Bool(false));
    assert_eq!(call(&mut h, MapFunction::Get, &[m, key(1)]), Reply::Value(key(2)));
    assert_eq!(call(&mut h, MapFunction::Get, &[m, key(2)]), Reply::Value(empty()));
    assert_eq!(
        refused(&mut h, MapFunction::ContainsKey, &[key(5), key(6)]),
        "map.contains_key: Expected map and key as arguments, found 'T5' and 'T6'"
    );
    assert_eq!(
        refused(&mut h, MapFunction::ContainsKey, &[m]),
        "map.contains_key: Expected map and key as arguments"
    );
    assert_eq!(
        refused(&mut h, MapFunction::Get, &[m, key(6), key(7)]),
        "map.get: Expected map and key as arguments, found 'T800' and 'T6'"
    );
    assert_eq!(
        refused(&mut h, MapFunction::Get, &[]),
        "map.get: Expected map and key as arguments"
    );
}

#[test]
fn copies_are_separate() {
    let mut h = heap(&[(key(1), key(2))]);
    assert_eq!(call(&mut h, MapFunction::Copy, &[map_value(0)]), Reply::NewMap(1));
    assert_eq!(h.map_count(), 2);
    call(&mut h, MapFunction::Insert, &[map_value(0), key(3)]);
    assert_eq!(keys(&h, 0), [1, 3]);
    assert_eq!(keys(&h, 1), [1]);
    call(&mut h, MapFunction::Clear, &[map_value(1)]);
    assert_eq!(keys(&h, 0), [1, 3]);
    assert_eq!(
        refused(&mut h, MapFunction::Copy, &[]),
        "map.copy: Expected map as argument"
    );
}

#[test]
fn deep_copy() {
    let mut h = heap(&[]);
    let m = map_value(0);
    assert_eq!(call(&mut h, MapFunction::DeepCopy, &[m]), Reply::DeepCopy(m));
    assert_eq!(
        refused(&mut h, MapFunction::DeepCopy, &[key(1)]),
        "map.deep_copy: Expected map as argument"
    );
}

#[test]
fn get_index() {
    let mut h = heap(&[(key(1), key(2)), (key(3), key(4))]);
    let m = map_value(0);
    assert_eq!(
        call(&mut h, MapFunction::GetIndex, &[m, index(false, 1)]),
        Reply::Pair(key(3), key(4))
    );
    assert_eq!(
        call(&mut h, MapFunction::GetIndex, &[m, index(false, 2)]),
        Reply::Value(empty())
    );
    assert_eq!(
        refused(&mut h, MapFunction::GetIndex, &[m, index(true, 0)]),
        "map.get_index: Negative indices aren't allowed"
    );
    assert_eq!(
        refused(&mut h, MapFunction::GetIndex, &[m, key(1)]),
        "map.get_index: Expected map and index as arguments"
    );
}

#[test]
fn insert() {
    let mut h = heap(&[(key(1), key(2)), (key(3), key(4))]);
    let m = map_value(0);
    // An existing entry keeps its place
    assert_eq!(
        call(&mut h, MapFunction::Insert, &[m, key(1), key(9)]),
        Reply::Value(key(2))
    );
    assert_eq!(h.entry(0, 0), Some((key(1), key(9))));
    // A new entry comes last
    assert_eq!(call(&mut h, MapFunction::Insert, &[m, key(5)]), Reply::Value(empty()));
    assert_eq!(h.entry(0, 2), Some((key(5), empty())));
    assert_eq!(keys(&h, 0), [1, 3, 5]);
    let mutable = Value { immutable: false, ..key(6) };
    assert_eq!(
        refused(&mut h, MapFunction::Insert, &[m, mutable, key(1)]),
        "map.insert: Expected map and key as arguments, found 'T800' and 'T6'"
    );
    assert_eq!(
        refused(&mut h, MapFunction::Insert, &[m, key(1), key(1), key(1)]),
        "map.insert: Expected map and key as arguments, found 'T800' and 'T1'"
    );
    assert_eq!(
        refused(&mut h, MapFunction::Insert, &[m]),
        "map.insert: Expected map and key as arguments"
    );
    assert_eq!(keys(&h, 0), [1, 3, 5]);
}

#[test]
fn is_empty_and_size() {
    let mut h = heap(&[(key(1), key(2))]);
    let m = map_value(0);
    assert_eq!(call(&mut h, MapFunction::IsEmpty, &[m]), Reply::Bool(false));
    assert_eq!(call(&mut h, MapFunction::Size, &[m]), Reply::Size(1));
    assert_eq!(
        refused(&mut h, MapFunction::IsEmpty, &[key(4)]),
        "map.is_empty: Expected map as argument, found 'T4'"
    );
    assert_eq!(
        refused(&mut h, MapFunction::IsEmpty, &[]),
        "map.contains_key: Expected map and key as arguments"
    );
    assert_eq!(
        refused(&mut h, MapFunction::Size, &[m, m]),
        "map.size: Expected map as argument, found 'T800'"
    );
    assert_eq!(
        refused(&mut h, MapFunction::Size, &[]),
        "map.contains_key: Expected map and key as arguments"
    );
}

#[test]
fn iterators() {
    let mut h = heap(&[(key(1), key(2))]);
    let m = map_value(0);
    assert_eq!(
        call(&mut h, MapFunction::Iter, &[m]),
        Reply::Iterate { map: 0, items: Items::Entries }
    );
    assert_eq!(
        call(&mut h, MapFunction::Keys, &[m]),
        Reply::Iterate { map: 0, items: Items::Keys }
    );
    assert_eq!(
        call(&mut h, MapFunction::Values, &[m]),
        Reply::Iterate { map: 0, items: Items::Values }
    );
    let entry = h.entry(0, 0).unwrap();
    assert_eq!(item(Items::Entries, entry), Output::ValuePair(key(1), key(2)));
    assert_eq!(item(Items::Keys, entry), Output::Value(key(1)));
    assert_eq!(item(Items::Values, entry), Output::Value(key(2)));
    assert_eq!(
        refused(&mut h, MapFunction::Iter, &[key(3)]),
        "map.iter: Expected map as argument, found 'T3'"
    );
    assert_eq!(
        refused(&mut h, MapFunction::Keys, &[]),
        "map.keys: Expected map as argument"
    );
    assert_eq!(
        refused(&mut h, MapFunction::Values, &[key(3)]),
        "map.values: Expected map as argument, found 'T3'"
    );
}

#[test]
fn remove() {
    let mut h = heap(&[(key(1), key(2)), (key(3), key(4)), (key(5), key(6))]);
    let m = map_value(0);
    assert_eq!(call(&mut h, MapFunction::Remove, &[m, key(3)]), Reply::Value(key(4)));
    assert_eq!(keys(&h, 0), [1, 5]);
    assert_eq!(call(&mut h, MapFunction::Remove, &[m, key(3)]), Reply::Value(empty()));
    assert_eq!(call(&mut h, MapFunction::ContainsKey, &[m, key(3)]), Reply::Bool(false));
    assert_eq!(
        refused(&mut h, MapFunction::Remove, &[m, Value { immutable: false, ..key(1) }]),
        "map.remove: Expected map and key as arguments, found 'T800' and 'T1'"
    );
    assert_eq!(
        refused(&mut h, MapFunction::Remove, &[m]),
        "map.remove: Expected map and key as arguments"
    );
}

#[test]
fn insert_then_remove() {
    let mut h = heap(&[(key(1), key(2))]);
    let m = map_value(0);
    call(&mut h, MapFunction::Insert, &[m, key(7), key(8)]);
    assert_eq!(call(&mut h, MapFunction::Get, &[m, key(7)]), Reply::Value(key(8)));
    call(&mut h, MapFunction::Remove, &[m, key(7)]);
    assert_eq!(keys(&h, 0), [1]);
}

#[test]
fn sort_by_key() {
    let entries = [
        (ranked(1, 30), empty()),
        (ranked(2, 10), empty()),
        (ranked(3, 30), empty()),
        (ranked(4, 20), empty()),
    ];
    let mut h = heap(&entries);
    assert_eq!(call(&mut h, MapFunction::Sort, &[map_value(0)]), Reply::Value(empty()));
    // Keys of the same rank keep their order
    assert_eq!(keys(&h, 0), [2, 4, 1, 3]);
    call(&mut h, MapFunction::Sort, &[map_value(0)]);
    assert_eq!(keys(&h, 0), [2, 4, 1, 3]);
    assert_eq!(
        refused(&mut h, MapFunction::Sort, &[map_value(0), key(1)]),
        "map.sort: Expected map as argument"
    );
}

#[test]
fn sort_with_a_function() {
    let mut h = heap(&[(key(1), empty()), (key(2), empty()), (key(3), empty())]);
    let m = map_value(0);
    assert_eq!(
        call(&mut h, MapFunction::Sort, &[m, function()]),
        Reply::RunForSort { map: 0, function: function() }
    );
    let results: Vec<Result<Value, String>> = vec![Ok(key(9)), Ok(key(7)), Ok(key(8))];
    assert_eq!(h.finish_sort(0, results).unwrap(), empty());
    assert_eq!(keys(&h, 0), [2, 3, 1]);
}

#[test]
fn sort_with_a_function_that_fails() {
    let mut h = heap(&[(key(1), empty()), (key(2), empty()), (key(3), empty())]);
    let results: Vec<Result<Value, String>> =
        vec![Ok(key(9)), Err("first".to_string()), Err("second".to_string())];
    let failure = h.finish_sort(0, results).unwrap_err();
    assert_eq!(failure.prefix, "map.sort");
    assert_eq!(failure.error, "first");
    // Entries without a result are ranked like the empty value
    assert_eq!(keys(&h, 0), [2, 3, 1]);
}

#[test]
fn sort_of_a_single_entry_runs_nothing() {
    let mut h = heap(&[(key(1), empty())]);
    assert_eq!(
        call(&mut h, MapFunction::Sort, &[map_value(0), function()]),
        Reply::Value(empty())
    );
}

#[test]
fn update_of_an_existing_key() {
    let mut h = heap(&[(key(1), key(2)), (key(3), key(4))]);
    let m = map_value(0);
    assert_eq!(
        call(&mut h, MapFunction::Update, &[m, key(1), function()]),
        Reply::RunForUpdate { map: 0, key: key(1), function: function(), value: key(2) }
    );
    let result: Result<Value, String> = Ok(key(5));
    assert_eq!(h.finish_update(0, key(1), result).unwrap(), key(5));
    assert_eq!(h.entry(0, 0), Some((key(1), key(5))));
    assert_eq!(keys(&h, 0), [1, 3]);
}

#[test]
fn update_of_a_new_key() {
    let mut h = heap(&[]);
    let m = map_value(0);
    assert_eq!(
        call(&mut h, MapFunction::Update, &[m, key(1), key(6), function()]),
        Reply::RunForUpdate { map: 0, key: key(1), function: function(), value: key(6) }
    );
    assert_eq!(h.entry(0, 0), Some((key(1), key(6))));
    // Without a default the empty value is inserted
    assert_eq!(
        call(&mut h, MapFunction::Update, &[m, key(2), function()]),
        Reply::RunForUpdate { map: 0, key: key(2), function: function(), value: empty() }
    );
    let result: Result<Value, String> = Err("oops".to_string());
    let failure = h.finish_update(0, key(2), result).unwrap_err();
    assert_eq!(failure.prefix, "map.update");
    assert_eq!(failure.error, "oops");
    assert_eq!(h.entry(0, 1), Some((key(2), empty())));
}

#[test]
fn update_needs_a_function() {
    let mut h = heap(&[]);
    let m = map_value(0);
    let text = "map.update: Expected map, key, and function as arguments";
    assert_eq!(refused(&mut h, MapFunction::Update, &[m, key(1), key(2)]), text);
    assert_eq!(refused(&mut h, MapFunction::Update, &[m, key(1), key(2), key(3)]), text);
    let mutable = Value { immutable: false, ..key(1) };
    assert_eq!(refused(&mut h, MapFunction::Update, &[m, mutable, function()]), text);
    assert_eq!(refused(&mut h, MapFunction::Update, &[key(1), key(1), function()]), text);
    assert_eq!(h.entry_count(0), 0);
}

#[test]
fn value_that_refers_to_no_map() {
    let mut h = heap(&[]);
    assert_eq!(
        refused(&mut h, MapFunction::Size, &[map_value(1)]),
        "map.size: Expected map as argument, found 'T800'"
    );
}

#[test]
fn value_map_on_its_own() {
    let mut m = ValueMap::new();
    assert!(m.is_empty());
    assert_eq!(m.insert(key(2), key(20)), None);
    assert_eq!(m.insert(key(1), key(10)), None);
    assert_eq!(m.insert(key(2), key(21)), Some(key(20)));
    assert_eq!(m.len(), 2);
    assert_eq!(m.get_index(0), Some((key(2), key(21))));
    let copied = m.copy();
    m.sort_keys();
    assert_eq!(m.get_index(0), Some((key(1), key(10))));
    assert_eq!(copied.get_index(0), Some((key(2), key(21))));
    m.sort_by_ranks(&vec![2, 1]);
    assert_eq!(m.get_index(0), Some((key(2), key(21))));
    assert_eq!(m.shift_remove(&key(2)), Some(key(21)));
    assert!(!m.contains_key(&key(2)));
    assert_eq!(m.get(&key(1)), Some(key(10)));
    m.clear();
    assert_eq!(m.len(), 0);
}
