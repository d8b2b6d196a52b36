//! The functions of the `map` module.
use vstd::prelude::*;
use vstd::string::*;

use crate::value_map::{
    entry_at, has_distinct_keys, has_key, inserted, key_ranks, law_insert_then_get,
    law_remove_keeps_the_others, removed, sorted, value_for, Entry, Kind, Value, ValueMap,
};

pub mod laws;

verus! {

/// The functions of the module.
#[derive(Clone, Copy, Debug, PartialEq, Eq, Structural)]
pub enum MapFunction {
    Clear,
    ContainsKey,
    Copy,
    DeepCopy,
    Get,
    GetIndex,
    Insert,
    IsEmpty,
    Iter,
    Keys,
    Remove,
    Sort,
    Size,
    Update,
    Values,
}

/// What an iterator over a map yields.
#[derive(Clone, Copy, Debug, PartialEq, Eq, Structural)]
pub enum Items {
    Entries,
    Keys,
    Values,
}

/// What an iterator yields in one step.
#[derive(Clone, Copy, Debug, PartialEq, Eq, Structural)]
pub enum Output {
    Value(Value),
    ValuePair(Value, Value),
}

/// What a call comes to.
#[derive(Clone, Copy, Debug, PartialEq, Eq, Structural)]
pub enum Reply {
    Value(Value),
    Bool(bool),
    Size(usize),
    /// A tuple of a key and its value.
    Pair(Value, Value),
    /// A new map, by its place in the heap.
    NewMap(usize),
    /// A deep copy of the value is to be made.
    DeepCopy(Value),
    /// An iterator over the map is to be made.
    Iterate { map: usize, items: Items },
    /// The function is to be run with each entry of the map, and the results are to be handed to
    /// `finish_sort`.
    RunForSort { map: usize, function: Value },
    /// The function is to be run with the value, and the result is to be handed to
    /// `finish_update`.
    RunForUpdate { map: usize, key: Value, function: Value, value: Value },
}

/// The answer to arguments that a function doesn't take: a message, and the arguments whose types
/// belong into it.
#[derive(Debug)]
pub struct Refusal {
    pub text: &'static str,
    pub found: Vec<Value>,
}

/// An error of a function that a call has run, and the name of the call.
#[derive(Debug)]
pub struct Failure<E> {
    pub prefix: &'static str,
    pub error: E,
}

/// The maps that values refer to.
#[derive(Debug)]
pub struct Heap {
    maps: Vec<ValueMap>,
    empty: Value,
}

/// What a heap holds: the entries of each map, and the value that stands for nothing.
pub struct HeapView {
    pub maps: Seq<Seq<Entry>>,
    pub empty: Value,
}

impl View for Heap {
    type V = HeapView;

    closed spec fn view(&self) -> HeapView {
        HeapView { maps: crate::ast::views(self.maps@), empty: self.empty }
    }
}

/// The answer to a call: the reply, or the message and the arguments of a refusal.
pub type Answer = Result<Reply, (Seq<char>, Seq<Value>)>;

impl HeapView {
    /// In each map each key occurs once.
    pub open spec fn well_formed(self) -> bool {
        forall|i: int| 0 <= i < self.maps.len() ==> has_distinct_keys(#[trigger] self.maps[i])
    }

    /// The map that a value refers to.
    pub open spec fn map_of(self, value: Value) -> Option<usize> {
        match value.kind {
            Kind::Dict(map) => if map < self.maps.len() {
                Some(map)
            } else {
                None
            },
            _ => None,
        }
    }

    /// The map that the first of the arguments refers to, if there are `count` arguments.
    pub open spec fn first_of(self, args: Seq<Value>, count: int) -> Option<usize> {
        if args.len() == count && count > 0 {
            self.map_of(args[0])
        } else {
            None
        }
    }

    pub open spec fn without_maps(empty: Value) -> HeapView {
        HeapView { maps: Seq::empty(), empty }
    }

    /// The heap with one more map, which has no entries.
    pub open spec fn with_new_map(self) -> HeapView {
        HeapView { maps: self.maps.push(Seq::empty()), ..self }
    }

    pub open spec fn with_map(self, map: usize, entries: Seq<Entry>) -> HeapView {
        HeapView { maps: self.maps.update(map as int, entries), ..self }
    }

    pub open spec fn value_or_empty(self, value: Option<Value>) -> Reply {
        match value {
            Some(value) => Reply::Value(value),
            None => Reply::Value(self.empty),
        }
    }
}

/// A refusal that says nothing of the arguments.
pub open spec fn refused(text: Seq<char>) -> Answer {
    Err((text, Seq::empty()))
}

/// A refusal that names the types of the first arguments, where there are at least `count`.
pub open spec fn refused_found(
    text: Seq<char>,
    args: Seq<Value>,
    count: int,
    otherwise: Seq<char>,
) -> Answer {
    if args.len() >= count {
        Err((text, args.take(count)))
    } else {
        refused(otherwise)
    }
}

pub open spec fn clear(heap: HeapView, args: Seq<Value>) -> (HeapView, Answer) {
    match heap.first_of(args, 1) {
        Some(map) => (heap.with_map(map, Seq::empty()), Ok(Reply::Value(heap.empty))),
        None => (heap, refused("map.clear: Expected map as argument"@)),
    }
}

pub open spec fn contains_key(heap: HeapView, args: Seq<Value>) -> Answer {
    match heap.first_of(args, 2) {
        Some(map) => Ok(Reply::Bool(has_key(heap.maps[map as int], args[1].id))),
        None => refused_found(
            "map.contains_key: Expected map and key as arguments"@,
            args,
            2,
            "map.contains_key: Expected map and key as arguments"@,
        ),
    }
}

/// A copy doesn't share its entries with the map.
pub open spec fn copy(heap: HeapView, args: Seq<Value>) -> (HeapView, Answer) {
    match heap.first_of(args, 1) {
        Some(map) => (
            HeapView { maps: heap.maps.push(heap.maps[map as int]), ..heap },
            Ok(Reply::NewMap(heap.maps.len() as usize)),
        ),
        None => (heap, refused("map.copy: Expected map as argument"@)),
    }
}

pub open spec fn deep_copy(heap: HeapView, args: Seq<Value>) -> Answer {
    match heap.first_of(args, 1) {
        Some(map) => Ok(Reply::DeepCopy(args[0])),
        None => refused("map.deep_copy: Expected map as argument"@),
    }
}

pub open spec fn get(heap: HeapView, args: Seq<Value>) -> Answer {
    match heap.first_of(args, 2) {
        Some(map) => Ok(heap.value_or_empty(value_for(heap.maps[map as int], args[1].id))),
        None => refused_found(
            "map.get: Expected map and key as arguments"@,
            args,
            2,
            "map.get: Expected map and key as arguments"@,
        ),
    }
}

pub open spec fn get_index(heap: HeapView, args: Seq<Value>) -> Answer {
    match heap.first_of(args, 2) {
        Some(map) => match args[1].kind {
            Kind::Number { negative, index } => if negative {
                refused("map.get_index: Negative indices aren't allowed"@)
            } else if index < heap.maps[map as int].len() {
                let entry = heap.maps[map as int][index as int];
                Ok(Reply::Pair(entry.0, entry.1))
            } else {
                Ok(Reply::Value(heap.empty))
            },
            _ => refused("map.get_index: Expected map and index as arguments"@),
        },
        None => refused("map.get_index: Expected map and index as arguments"@),
    }
}

/// A key without a value is inserted with the empty value.
pub open spec fn insert(heap: HeapView, args: Seq<Value>) -> (HeapView, Answer) {
    let map = if args.len() == 2 {
        heap.first_of(args, 2)
    } else {
        heap.first_of(args, 3)
    };
    match map {
        Some(map) if args[1].immutable => {
            let value = if args.len() == 2 {
                heap.empty
            } else {
                args[2]
            };
            let entries = heap.maps[map as int];
            (
                heap.with_map(map, inserted(entries, args[1], value)),
                Ok(heap.value_or_empty(value_for(entries, args[1].id))),
            )
        },
        _ => (
            heap,
            refused_found(
                "map.insert: Expected map and key as arguments"@,
                args,
                2,
                "map.insert: Expected map and key as arguments"@,
            ),
        ),
    }
}

pub open spec fn is_empty(heap: HeapView, args: Seq<Value>) -> Answer {
    match heap.first_of(args, 1) {
        Some(map) => Ok(Reply::Bool(heap.maps[map as int].len() == 0)),
        None => refused_found(
            "map.is_empty: Expected map as argument"@,
            args,
            1,
            "map.contains_key: Expected map and key as arguments"@,
        ),
    }
}

pub open spec fn iterate(
    heap: HeapView,
    args: Seq<Value>,
    items: Items,
    text: Seq<char>,
) -> Answer {
    match heap.first_of(args, 1) {
        Some(map) => Ok(Reply::Iterate { map, items }),
        None => refused_found(text, args, 1, text),
    }
}

pub open spec fn remove(heap: HeapView, args: Seq<Value>) -> (HeapView, Answer) {
    match heap.first_of(args, 2) {
        Some(map) if args[1].immutable => {
            let entries = heap.maps[map as int];
            (
                heap.with_map(map, removed(entries, args[1].id)),
                Ok(heap.value_or_empty(value_for(entries, args[1].id))),
            )
        },
        _ => (
            heap,
            refused_found(
                "map.remove: Expected map and key as arguments"@,
                args,
                2,
                "map.remove: Expected map and key as arguments"@,
            ),
        ),
    }
}

/// Without a function the keys decide. With one its results decide, unless there is nothing to put
/// in order.
pub open spec fn sort(heap: HeapView, args: Seq<Value>) -> (HeapView, Answer) {
    match (heap.first_of(args, 1), heap.first_of(args, 2)) {
        (Some(map), _) => {
            let entries = heap.maps[map as int];
            (
                heap.with_map(map, sorted(entries, key_ranks(entries))),
                Ok(Reply::Value(heap.empty)),
            )
        },
        (None, Some(map)) if args[1].callable => (
            heap,
            if heap.maps[map as int].len() < 2 {
                Ok(Reply::Value(heap.empty))
            } else {
                Ok(Reply::RunForSort { map, function: args[1] })
            },
        ),
        _ => (heap, refused("map.sort: Expected map as argument"@)),
    }
}

pub open spec fn size(heap: HeapView, args: Seq<Value>) -> Answer {
    match heap.first_of(args, 1) {
        Some(map) => Ok(Reply::Size(heap.maps[map as int].len() as usize)),
        None => refused_found(
            "map.size: Expected map as argument"@,
            args,
            1,
            "map.contains_key: Expected map and key as arguments"@,
        ),
    }
}

/// An update starts with the value for the key. A key that isn't there is inserted first, with the
/// default.
pub open spec fn update_started(
    heap: HeapView,
    map: usize,
    key: Value,
    default: Value,
    function: Value,
) -> (HeapView, Reply) {
    let entries = heap.maps[map as int];
    match value_for(entries, key.id) {
        Some(value) => (heap, Reply::RunForUpdate { map, key, function, value }),
        None => (
            heap.with_map(map, inserted(entries, key, default)),
            Reply::RunForUpdate { map, key, function, value: default },
        ),
    }
}

pub open spec fn update(heap: HeapView, args: Seq<Value>) -> (HeapView, Answer) {
    match (heap.first_of(args, 3), heap.first_of(args, 4)) {
        (Some(map), _) if args[1].immutable && args[2].callable => {
            let (after, reply) = update_started(heap, map, args[1], heap.empty, args[2]);
            (after, Ok(reply))
        },
        (None, Some(map)) if args[1].immutable && args[3].callable => {
            let (after, reply) = update_started(heap, map, args[1], args[2], args[3]);
            (after, Ok(reply))
        },
        _ => (heap, refused("map.update: Expected map, key, and function as arguments"@)),
    }
}

/// What a call does to the heap, and what it is answered.
pub open spec fn called(heap: HeapView, function: MapFunction, args: Seq<Value>) -> (
    HeapView,
    Answer,
) {
    match function {
        MapFunction::Clear => clear(heap, args),
        MapFunction::ContainsKey => (heap, contains_key(heap, args)),
        MapFunction::Copy => copy(heap, args),
        MapFunction::DeepCopy => (heap, deep_copy(heap, args)),
        MapFunction::Get => (heap, get(heap, args)),
        MapFunction::GetIndex => (heap, get_index(heap, args)),
        MapFunction::Insert => insert(heap, args),
        MapFunction::IsEmpty => (heap, is_empty(heap, args)),
        MapFunction::Iter => (
            heap,
            iterate(heap, args, Items::Entries, "map.iter: Expected map as argument"@),
        ),
        MapFunction::Keys => (
            heap,
            iterate(heap, args, Items::Keys, "map.keys: Expected map as argument"@),
        ),
        MapFunction::Remove => remove(heap, args),
        MapFunction::Sort => sort(heap, args),
        MapFunction::Size => (heap, size(heap, args)),
        MapFunction::Update => update(heap, args),
        MapFunction::Values => (
            heap,
            iterate(heap, args, Items::Values, "map.values: Expected map as argument"@),
        ),
    }
}

/// What running a function has come to is the expected value, or the expected error with the name
/// of the call.
pub open spec fn comes_to<E>(
    reply: Result<Value, Failure<E>>,
    expected: Result<Value, (Seq<char>, E)>,
) -> bool {
    match (reply, expected) {
        (Ok(value), Ok(expected)) => value == expected,
        (Err(failure), Err((prefix, error))) => failure.prefix@ == prefix && failure.error == error,
        _ => false,
    }
}

/// The result of an update takes the place of the value, and an error leaves the map as it is.
pub open spec fn update_finished<E>(
    heap: HeapView,
    map: usize,
    key: Value,
    result: Result<Value, E>,
) -> (HeapView, Result<Value, (Seq<char>, E)>) {
    match result {
        Ok(value) => (
            heap.with_map(map, inserted(heap.maps[map as int], key, value)),
            Ok(value),
        ),
        Err(error) => (heap, Err(("map.update"@, error))),
    }
}

/// The first of the errors among results.
pub open spec fn first_error<E>(results: Seq<Result<Value, E>>) -> Option<E>
    decreases results.len(),
{
    if results.len() == 0 {
        None
    } else {
        match results[0] {
            Ok(_) => first_error(results.skip(1)),
            Err(error) => Some(error),
        }
    }
}

/// A sort puts the entries in the order of their results. The first error is what it comes to.
pub open spec fn sort_finished<E>(heap: HeapView, map: usize, results: Seq<Result<Value, E>>) -> (
    HeapView,
    Result<Value, (Seq<char>, E)>,
) {
    (
        heap.with_map(map, sorted(heap.maps[map as int], result_ranks(results, heap.empty))),
        match first_error(results) {
            Some(error) => Err(("map.sort"@, error)),
            None => Ok(heap.empty),
        },
    )
}

/// The result of a call is the expected one.
pub open spec fn answers(result: Result<Reply, Refusal>, expected: Answer) -> bool {
    match (result, expected) {
        (Ok(reply), Ok(expected)) => reply == expected,
        (Err(refusal), Err((text, found))) => refusal.text@ == text && refusal.found@ == found,
        _ => false,
    }
}

pub open spec fn function_name(function: MapFunction) -> Seq<char> {
    match function {
        MapFunction::Clear => "clear"@,
        MapFunction::ContainsKey => "contains_key"@,
        MapFunction::Copy => "copy"@,
        MapFunction::DeepCopy => "deep_copy"@,
        MapFunction::Get => "get"@,
        MapFunction::GetIndex => "get_index"@,
        MapFunction::Insert => "insert"@,
        MapFunction::IsEmpty => "is_empty"@,
        MapFunction::Iter => "iter"@,
        MapFunction::Keys => "keys"@,
        MapFunction::Remove => "remove"@,
        MapFunction::Sort => "sort"@,
        MapFunction::Size => "size"@,
        MapFunction::Update => "update"@,
        MapFunction::Values => "values"@,
    }
}

/// The functions of the module, in the order in which it lists them.
pub open spec fn all_functions() -> Seq<MapFunction> {
    seq![
        MapFunction::Clear,
        MapFunction::ContainsKey,
        MapFunction::Copy,
        MapFunction::DeepCopy,
        MapFunction::Get,
        MapFunction::GetIndex,
        MapFunction::Insert,
        MapFunction::IsEmpty,
        MapFunction::Iter,
        MapFunction::Keys,
        MapFunction::Remove,
        MapFunction::Sort,
        MapFunction::Size,
        MapFunction::Update,
        MapFunction::Values,
    ]
}

/// The module: its functions by name.
pub fn make_module() -> (module: Vec<(&'static str, MapFunction)>)
    ensures
        module@.len() == all_functions().len(),
        forall|i: int|
            0 <= i < module@.len() ==> {
                &&& (#[trigger] module@[i]).1 == all_functions()[i]
                &&& module@[i].0@ == function_name(module@[i].1)
            },
{
    let mut result: Vec<(&'static str, MapFunction)> = Vec::new();
    result.push(("clear", MapFunction::Clear));
    result.push(("contains_key", MapFunction::ContainsKey));
    result.push(("copy", MapFunction::Copy));
    result.push(("deep_copy", MapFunction::DeepCopy));
    result.push(("get", MapFunction::Get));
    result.push(("get_index", MapFunction::GetIndex));
    result.push(("insert", MapFunction::Insert));
    result.push(("is_empty", MapFunction::IsEmpty));
    result.push(("iter", MapFunction::Iter));
    result.push(("keys", MapFunction::Keys));
    result.push(("remove", MapFunction::Remove));
    result.push(("sort", MapFunction::Sort));
    result.push(("size", MapFunction::Size));
    result.push(("update", MapFunction::Update));
    result.push(("values", MapFunction::Values));
    result
}

/// A refusal that says nothing of the arguments.
fn refuse(text: &'static str) -> (refusal: Refusal)
    ensures
        refusal.text@ == text@,
        refusal.found@ == Seq::<Value>::empty(),
{
    Refusal { text, found: Vec::new() }
}

/// A refusal that names the types of the first arguments, where there are at least `count`.
fn refuse_found(
    text: &'static str,
    args: &Vec<Value>,
    count: usize,
    otherwise: &'static str,
) -> (refusal: Refusal)
    ensures
        answers(Err(refusal), refused_found(text@, args@, count as int, otherwise@)),
{
    if args.len() < count {
        return refuse(otherwise);
    }
    let mut found: Vec<Value> = Vec::new();
    let mut i: usize = 0;
    while i < count
        invariant
            i <= count <= args@.len(),
            found@ == args@.take(i as int),
        decreases count - i,
    {
        found.push(args[i]);
        i = i + 1;
        assert(found@ =~= args@.take(i as int));
    }
    Refusal { text, found }
}

/// The message of a refusal, with the names of the types that belong into it.
pub open spec fn message_of(text: Seq<char>, type_names: Seq<Seq<char>>) -> Seq<char> {
    if type_names.len() == 0 {
        text
    } else if type_names.len() == 1 {
        text + ", found '"@ + type_names[0] + "'"@
    } else {
        text + ", found '"@ + type_names[0] + "' and '"@ + type_names[1] + "'"@
    }
}

impl Refusal {
    /// The message, given the names of the types of the arguments that belong into it.
    pub fn message(&self, type_names: &Vec<String>) -> (message: String)
        requires
            type_names@.len() == self.found@.len(),
            self.found@.len() <= 2,
        ensures
            message@ == message_of(
                self.text@,
                type_names@.map_values(|name: String| name@),
            ),
    {
        let mut message = self.text.to_owned();
        if type_names.len() > 0 {
            message.append(", found '");
            message.append(type_names[0].as_str());
            if type_names.len() > 1 {
                message.append("' and '");
                message.append(type_names[1].as_str());
            }
            message.append("'");
        }
        message
    }
}

/// What an iterator makes of an entry.
pub open spec fn item_of(items: Items, entry: Entry) -> Output {
    match items {
        Items::Entries => Output::ValuePair(entry.0, entry.1),
        Items::Keys => Output::Value(entry.0),
        Items::Values => Output::Value(entry.1),
    }
}

/// What an iterator makes of an entry.
pub fn item(items: Items, entry: Entry) -> (output: Output)
    ensures
        output == item_of(items, entry),
{
    match items {
        Items::Entries => Output::ValuePair(entry.0, entry.1),
        Items::Keys => Output::Value(entry.0),
        Items::Values => Output::Value(entry.1),
    }
}

impl Heap {
    /// A heap without maps, given the value that stands for nothing.
    pub fn new(empty: Value) -> (heap: Heap)
        ensures
            heap@ == HeapView::without_maps(empty),
            heap@.well_formed(),
    {
        let heap = Heap { maps: Vec::new(), empty };
        assert(heap@.maps =~= Seq::empty());
        heap
    }

    /// Adds a map without entries, and returns its place.
    pub fn add_map(&mut self) -> (map: usize)
        requires
            old(self)@.well_formed(),
        ensures
            map == old(self)@.maps.len(),
            final(self)@ == old(self)@.with_new_map(),
            final(self)@.well_formed(),
    {
        let map: usize = self.maps.len();
        self.maps.push(ValueMap::new());
        assert(self@.maps =~= old(self)@.maps.push(Seq::empty()));
        map
    }

    pub fn map_count(&self) -> (count: usize)
        ensures
            count == self@.maps.len(),
    {
        self.maps.len()
    }

    /// The number of entries of a map.
    pub fn entry_count(&self, map: usize) -> (count: usize)
        requires
            map < self@.maps.len(),
        ensures
            count == self@.maps[map as int].len(),
    {
        self.maps[map].len()
    }

    /// The entry at an index of a map.
    pub fn entry(&self, map: usize, index: usize) -> (entry: Option<Entry>)
        requires
            map < self@.maps.len(),
        ensures
            entry == entry_at(self@.maps[map as int], index as int),
    {
        self.maps[map].get_index(index)
    }

    /// The map that the first of the arguments refers to, if there are `count` arguments.
    fn first_of(&self, args: &Vec<Value>, count: usize) -> (map: Option<usize>)
        ensures
            map == self@.first_of(args@, count as int),
            map matches Some(m) ==> m < self@.maps.len() && args@.len() == count,
    {
        if args.len() != count || count == 0 {
            return None;
        }
        match args[0].kind {
            Kind::Dict(map) => if map < self.maps.len() {
                Some(map)
            } else {
                None
            },
            _ => None,
        }
    }

    fn value_or_empty(&self, value: Option<Value>) -> (reply: Reply)
        ensures
            reply == self@.value_or_empty(value),
    {
        match value {
            Some(value) => Reply::Value(value),
            None => Reply::Value(self.empty),
        }
    }

    /// Calls a function of the module.
    pub fn call(&mut self, function: MapFunction, args: &Vec<Value>) -> (result: Result<
        Reply,
        Refusal,
    >)
        requires
            old(self)@.well_formed(),
        ensures
            final(self)@ == called(old(self)@, function, args@).0,
            answers(result, called(old(self)@, function, args@).1),
            final(self)@.well_formed(),
    {
        match function {
            MapFunction::Clear => self.clear(args),
            MapFunction::ContainsKey => self.contains_key(args),
            MapFunction::Copy => self.copy(args),
            MapFunction::DeepCopy => self.deep_copy(args),
            MapFunction::Get => self.get(args),
            MapFunction::GetIndex => self.get_index(args),
            MapFunction::Insert => self.insert(args),
            MapFunction::IsEmpty => self.is_empty(args),
            MapFunction::Iter => self.iterate(
                args,
                Items::Entries,
                "map.iter: Expected map as argument",
            ),
            MapFunction::Keys => self.iterate(
                args,
                Items::Keys,
                "map.keys: Expected map as argument",
            ),
            MapFunction::Remove => self.remove(args),
            MapFunction::Sort => self.sort(args),
            MapFunction::Size => self.size(args),
            MapFunction::Update => self.update(args),
            MapFunction::Values => self.iterate(
                args,
                Items::Values,
                "map.values: Expected map as argument",
            ),
        }
    }

    fn clear(&mut self, args: &Vec<Value>) -> (result: Result<Reply, Refusal>)
        requires
            old(self)@.well_formed(),
        ensures
            final(self)@ == clear(old(self)@, args@).0,
            answers(result, clear(old(self)@, args@).1),
            final(self)@.well_formed(),
    {
        match self.first_of(args, 1) {
            Some(map) => {
                self.maps[map].clear();
                assert(self@.maps =~= old(self)@.with_map(map, Seq::empty()).maps);
                Ok(Reply::Value(self.empty))
            },
            None => Err(refuse("map.clear: Expected map as argument")),
        }
    }

    fn contains_key(&self, args: &Vec<Value>) -> (result: Result<Reply, Refusal>)
        requires
            self@.well_formed(),
        ensures
            answers(result, contains_key(self@, args@)),
    {
        match self.first_of(args, 2) {
            Some(map) => {
                assert(has_distinct_keys(self@.maps[map as int]));
                Ok(Reply::Bool(self.maps[map].contains_key(&args[1])))
            },
            None => Err(
                refuse_found(
                    "map.contains_key: Expected map and key as arguments",
                    args,
                    2,
                    "map.contains_key: Expected map and key as arguments",
                ),
            ),
        }
    }

    fn copy(&mut self, args: &Vec<Value>) -> (result: Result<Reply, Refusal>)
        requires
            old(self)@.well_formed(),
        ensures
            final(self)@ == copy(old(self)@, args@).0,
            answers(result, copy(old(self)@, args@).1),
            final(self)@.well_formed(),
    {
        match self.first_of(args, 1) {
            Some(map) => {
                assert(has_distinct_keys(self@.maps[map as int]));
                let copied = self.maps[map].copy();
                let place: usize = self.maps.len();
                self.maps.push(copied);
                assert(self@.maps =~= old(self)@.maps.push(old(self)@.maps[map as int]));
                Ok(Reply::NewMap(place))
            },
            None => Err(refuse("map.copy: Expected map as argument")),
        }
    }

    fn deep_copy(&self, args: &Vec<Value>) -> (result: Result<Reply, Refusal>)
        ensures
            answers(result, deep_copy(self@, args@)),
    {
        match self.first_of(args, 1) {
            Some(_) => Ok(Reply::DeepCopy(args[0])),
            None => Err(refuse("map.deep_copy: Expected map as argument")),
        }
    }

    fn get(&self, args: &Vec<Value>) -> (result: Result<Reply, Refusal>)
        requires
            self@.well_formed(),
        ensures
            answers(result, get(self@, args@)),
    {
        match self.first_of(args, 2) {
            Some(map) => {
                assert(has_distinct_keys(self@.maps[map as int]));
                Ok(self.value_or_empty(self.maps[map].get(&args[1])))
            },
            None => Err(
                refuse_found(
                    "map.get: Expected map and key as arguments",
                    args,
                    2,
                    "map.get: Expected map and key as arguments",
                ),
            ),
        }
    }

    fn get_index(&self, args: &Vec<Value>) -> (result: Result<Reply, Refusal>)
        ensures
            answers(result, get_index(self@, args@)),
    {
        match self.first_of(args, 2) {
            Some(map) => match args[1].kind {
                Kind::Number { negative, index } => {
                    if negative {
                        return Err(refuse("map.get_index: Negative indices aren't allowed"));
                    }
                    match self.maps[map].get_index(index) {
                        Some((key, value)) => Ok(Reply::Pair(key, value)),
                        None => Ok(Reply::Value(self.empty)),
                    }
                },
                _ => Err(refuse("map.get_index: Expected map and index as arguments")),
            },
            None => Err(refuse("map.get_index: Expected map and index as arguments")),
        }
    }

    fn insert(&mut self, args: &Vec<Value>) -> (result: Result<Reply, Refusal>)
        requires
            old(self)@.well_formed(),
        ensures
            final(self)@ == insert(old(self)@, args@).0,
            answers(result, insert(old(self)@, args@).1),
            final(self)@.well_formed(),
    {
        let map = if args.len() == 2 {
            self.first_of(args, 2)
        } else {
            self.first_of(args, 3)
        };
        if let Some(map) = map {
            if args[1].immutable {
                let value = if args.len() == 2 {
                    self.empty
                } else {
                    args[2]
                };
                let ghost entries = self@.maps[map as int];
                assert(has_distinct_keys(entries));
                let previous = self.maps[map].insert(args[1], value);
                assert(self@.maps =~= old(self)@.with_map(
                    map,
                    inserted(entries, args@[1], value),
                ).maps);
                return Ok(self.value_or_empty(previous));
            }
        }
        Err(
            refuse_found(
                "map.insert: Expected map and key as arguments",
                args,
                2,
                "map.insert: Expected map and key as arguments",
            ),
        )
    }

    fn is_empty(&self, args: &Vec<Value>) -> (result: Result<Reply, Refusal>)
        ensures
            answers(result, is_empty(self@, args@)),
    {
        match self.first_of(args, 1) {
            Some(map) => Ok(Reply::Bool(self.maps[map].is_empty())),
            None => Err(
                refuse_found(
                    "map.is_empty: Expected map as argument",
                    args,
                    1,
                    "map.contains_key: Expected map and key as arguments",
                ),
            ),
        }
    }

    fn iterate(&self, args: &Vec<Value>, items: Items, text: &'static str) -> (result: Result<
        Reply,
        Refusal,
    >)
        ensures
            answers(result, iterate(self@, args@, items, text@)),
    {
        match self.first_of(args, 1) {
            Some(map) => Ok(Reply::Iterate { map, items }),
            None => Err(refuse_found(text, args, 1, text)),
        }
    }

    fn remove(&mut self, args: &Vec<Value>) -> (result: Result<Reply, Refusal>)
        requires
            old(self)@.well_formed(),
        ensures
            final(self)@ == remove(old(self)@, args@).0,
            answers(result, remove(old(self)@, args@).1),
            final(self)@.well_formed(),
    {
        if let Some(map) = self.first_of(args, 2) {
            if args[1].immutable {
                let ghost entries = self@.maps[map as int];
                assert(has_distinct_keys(entries));
                let previous = self.maps[map].shift_remove(&args[1]);
                assert(self@.maps =~= old(self)@.with_map(
                    map,
                    removed(entries, args@[1].id),
                ).maps);
                return Ok(self.value_or_empty(previous));
            }
        }
        Err(
            refuse_found(
                "map.remove: Expected map and key as arguments",
                args,
                2,
                "map.remove: Expected map and key as arguments",
            ),
        )
    }

    fn sort(&mut self, args: &Vec<Value>) -> (result: Result<Reply, Refusal>)
        requires
            old(self)@.well_formed(),
        ensures
            final(self)@ == sort(old(self)@, args@).0,
            answers(result, sort(old(self)@, args@).1),
            final(self)@.well_formed(),
    {
        if let Some(map) = self.first_of(args, 1) {
            let ghost entries = self@.maps[map as int];
            assert(has_distinct_keys(entries));
            self.maps[map].sort_keys();
            assert(self@.maps =~= old(self)@.with_map(
                map,
                sorted(entries, key_ranks(entries)),
            ).maps);
            return Ok(Reply::Value(self.empty));
        }
        match self.first_of(args, 2) {
            Some(map) if args[1].callable => {
                if self.maps[map].len() < 2 {
                    Ok(Reply::Value(self.empty))
                } else {
                    Ok(Reply::RunForSort { map, function: args[1] })
                }
            },
            _ => Err(refuse("map.sort: Expected map as argument")),
        }
    }

    fn size(&self, args: &Vec<Value>) -> (result: Result<Reply, Refusal>)
        ensures
            answers(result, size(self@, args@)),
    {
        match self.first_of(args, 1) {
            Some(map) => Ok(Reply::Size(self.maps[map].len())),
            None => Err(
                refuse_found(
                    "map.size: Expected map as argument",
                    args,
                    1,
                    "map.contains_key: Expected map and key as arguments",
                ),
            ),
        }
    }

    fn update(&mut self, args: &Vec<Value>) -> (result: Result<Reply, Refusal>)
        requires
            old(self)@.well_formed(),
        ensures
            final(self)@ == update(old(self)@, args@).0,
            answers(result, update(old(self)@, args@).1),
            final(self)@.well_formed(),
    {
        if let Some(map) = self.first_of(args, 3) {
            if args[1].immutable && args[2].callable {
                let empty = self.empty;
                return Ok(self.start_update(map, args[1], empty, args[2]));
            }
        }
        if let Some(map) = self.first_of(args, 4) {
            if args[1].immutable && args[3].callable {
                return Ok(self.start_update(map, args[1], args[2], args[3]));
            }
        }
        Err(refuse("map.update: Expected map, key, and function as arguments"))
    }

    /// Looks up the value that is to be updated, and inserts the default if there is none.
    fn start_update(&mut self, map: usize, key: Value, default: Value, function: Value) -> (reply:
        Reply)
        requires
            old(self)@.well_formed(),
            map < old(self)@.maps.len(),
        ensures
            (final(self)@, reply) == update_started(old(self)@, map, key, default, function),
            final(self)@.well_formed(),
    {
        let ghost entries = self@.maps[map as int];
        assert(has_distinct_keys(entries));
        match self.maps[map].get(&key) {
            Some(value) => Reply::RunForUpdate { map, key, function, value },
            None => {
                self.maps[map].insert(key, default);
                assert(self@.maps =~= old(self)@.with_map(
                    map,
                    inserted(entries, key, default),
                ).maps);
                Reply::RunForUpdate { map, key, function, value: default }
            },
        }
    }

    /// Ends an update, given what the function made of the value: the result takes its place, and
    /// an error leaves the map as it is.
    pub fn finish_update<E>(&mut self, map: usize, key: Value, result: Result<Value, E>) -> (reply:
        Result<Value, Failure<E>>)
        requires
            old(self)@.well_formed(),
            map < old(self)@.maps.len(),
        ensures
            final(self)@.well_formed(),
            final(self)@ == update_finished(old(self)@, map, key, result).0,
            comes_to(reply, update_finished(old(self)@, map, key, result).1),
    {
        match result {
            Ok(value) => {
                let ghost entries = self@.maps[map as int];
                assert(has_distinct_keys(entries));
                self.maps[map].insert(key, value);
                assert(self@.maps =~= old(self)@.with_map(
                    map,
                    inserted(entries, key, value),
                ).maps);
                Ok(value)
            },
            Err(error) => Err(Failure { prefix: "map.update", error }),
        }
    }

    /// Ends a sort, given what the function made of each entry. An entry for which it failed is
    /// ranked like the empty value, and the first of the errors is returned.
    pub fn finish_sort<E>(&mut self, map: usize, results: Vec<Result<Value, E>>) -> (reply: Result<
        Value,
        Failure<E>,
    >)
        requires
            old(self)@.well_formed(),
            map < old(self)@.maps.len(),
            results@.len() == old(self)@.maps[map as int].len(),
        ensures
            final(self)@ == sort_finished(old(self)@, map, results@).0,
            comes_to(reply, sort_finished(old(self)@, map, results@).1),
            final(self)@.well_formed(),
            match reply {
                Ok(value) => {
                    &&& value == old(self)@.empty
                    &&& forall|i: int| 0 <= i < results@.len() ==> (#[trigger] results@[i]) is Ok
                },
                Err(failure) => {
                    &&& failure.prefix@ == "map.sort"@
                    &&& exists|i: int|
                        0 <= i < results@.len() && #[trigger] results@[i] == Err::<Value, E>(
                            failure.error,
                        ) && forall|j: int| 0 <= j < i ==> (#[trigger] results@[j]) is Ok
                },
            },
    {
        let ghost given = results@;
        let mut results = results;
        let mut reversed: Vec<u64> = Vec::new();
        let mut failed: Option<E> = None;
        assert(reversed@.reverse() =~= result_ranks(given, self@.empty).skip(given.len() as int));
        while results.len() > 0
            invariant
                results@.len() <= given.len(),
                results@ == given.take(results@.len() as int),
                self@ == old(self)@,
                reversed@.reverse() == result_ranks(given, self@.empty).skip(results@.len() as int),
                match failed {
                    None => forall|i: int|
                        results@.len() <= i < given.len() ==> (#[trigger] given[i]) is Ok,
                    Some(error) => exists|i: int|
                        results@.len() <= i < given.len() && #[trigger] given[i] == Err::<Value, E>(
                            error,
                        ) && forall|j: int|
                            results@.len() <= j < i ==> (#[trigger] given[j]) is Ok,
                },
            decreases results@.len(),
        {
            let ghost ranks = result_ranks(given, self@.empty);
            let ghost n = results@.len() - 1;
            let ghost before = reversed@;
            match results.pop() {
                Some(Ok(value)) => {
                    reversed.push(value.rank);
                },
                Some(Err(error)) => {
                    reversed.push(self.empty.rank);
                    failed = Some(error);
                    assert(given[n] == Err::<Value, E>(error));
                },
                None => {},
            }
            assert(results@ =~= given.take(n));
            assert(reversed@.reverse() =~= seq![ranks[n]] + before.reverse());
            assert(reversed@.reverse() =~= ranks.skip(n));
        }
        let mut ranks: Vec<u64> = Vec::new();
        let mut i: usize = 0;
        while i < reversed.len()
            invariant
                i <= reversed@.len(),
                ranks@ == reversed@.reverse().take(i as int),
            decreases reversed@.len() - i,
        {
            ranks.push(reversed[reversed.len() - 1 - i]);
            i = i + 1;
            assert(ranks@ =~= reversed@.reverse().take(i as int));
        }
        assert(ranks@ =~= result_ranks(given, self@.empty));
        let ghost entries = self@.maps[map as int];
        assert(has_distinct_keys(entries));
        self.maps[map].sort_by_ranks(&ranks);
        assert(self@.maps =~= old(self)@.with_map(map, sorted(entries, ranks@)).maps);
        let ghost seen = failed;
        proof {
            match seen {
                Some(error) => {
                    let i = choose|i: int|
                        0 <= i < given.len() && #[trigger] given[i] == Err::<Value, E>(error)
                            && forall|j: int| 0 <= j < i ==> (#[trigger] given[j]) is Ok;
                    laws::law_first_error(given, i, error);
                },
                None => {
                    laws::law_no_error(given);
                },
            }
        }
        match failed {
            Some(error) => Err(Failure { prefix: "map.sort", error }),
            None => Ok(self.empty),
        }
    }
}

/// The ranks of results, where a failure ranks like the empty value.
pub open spec fn result_ranks<E>(results: Seq<Result<Value, E>>, empty: Value) -> Seq<u64> {
    results.map_values(
        |result: Result<Value, E>|
            match result {
                Ok(value) => value.rank,
                Err(_) => empty.rank,
            },
    )
}

/// A refused call changes nothing.
pub proof fn law_refusal_changes_nothing(heap: HeapView, function: MapFunction, args: Seq<Value>)
    ensures
        called(heap, function, args).1 is Err ==> called(heap, function, args).0 == heap,
{
}

/// Only clearing, copying, inserting, removing, sorting and updating change anything.
pub proof fn law_reads_change_nothing(heap: HeapView, function: MapFunction, args: Seq<Value>)
    requires
        function != MapFunction::Clear,
        function != MapFunction::Copy,
        function != MapFunction::Insert,
        function != MapFunction::Remove,
        function != MapFunction::Sort,
        function != MapFunction::Update,
    ensures
        called(heap, function, args).0 == heap,
{
}

/// A call changes no map but the one that its first argument refers to, takes none away, and keeps
/// each key unique.
pub proof fn law_call_changes_one_map(
    heap: HeapView,
    function: MapFunction,
    args: Seq<Value>,
    other: int,
)
    requires
        heap.well_formed(),
        0 <= other < heap.maps.len(),
        args.len() > 0 ==> heap.map_of(args[0]) != Some(other as usize),
    ensures
        called(heap, function, args).0.maps.len() >= heap.maps.len(),
        called(heap, function, args).0.maps[other] == heap.maps[other],
        called(heap, function, args).0.empty == heap.empty,
{
}

/// A single map is what these functions take, and the others don't.
pub proof fn law_one_map_is_enough(heap: HeapView, function: MapFunction, args: Seq<Value>)
    requires
        args.len() == 1,
    ensures
        called(heap, function, args).1 is Ok <==> heap.map_of(args[0]) is Some && (function
            == MapFunction::Clear || function == MapFunction::Copy || function
            == MapFunction::DeepCopy || function == MapFunction::IsEmpty || function
            == MapFunction::Iter || function == MapFunction::Keys || function
            == MapFunction::Sort || function == MapFunction::Size || function
            == MapFunction::Values),
{
}

/// What was inserted can be got.
pub proof fn law_get_after_insert(heap: HeapView, map: Value, key: Value, value: Value)
    requires
        heap.well_formed(),
        heap.map_of(map) is Some,
        key.immutable,
    ensures
        ({
            let after = called(heap, MapFunction::Insert, seq![map, key, value]).0;
            &&& called(after, MapFunction::Get, seq![map, key]).1 == Ok::<
                Reply,
                (Seq<char>, Seq<Value>),
            >(Reply::Value(value))
            &&& called(after, MapFunction::ContainsKey, seq![map, key]).1 == Ok::<
                Reply,
                (Seq<char>, Seq<Value>),
            >(Reply::Bool(true))
        }),
{
    let entries = heap.maps[heap.map_of(map).unwrap() as int];
    law_insert_then_get(entries, key, value, key.id);
}

/// What was removed can't be got any more: the empty value stands in for it.
pub proof fn law_get_after_remove(heap: HeapView, map: Value, key: Value)
    requires
        heap.well_formed(),
        heap.map_of(map) is Some,
        key.immutable,
    ensures
        ({
            let after = called(heap, MapFunction::Remove, seq![map, key]).0;
            &&& called(after, MapFunction::Get, seq![map, key]).1 == Ok::<
                Reply,
                (Seq<char>, Seq<Value>),
            >(Reply::Value(heap.empty))
            &&& called(after, MapFunction::ContainsKey, seq![map, key]).1 == Ok::<
                Reply,
                (Seq<char>, Seq<Value>),
            >(Reply::Bool(false))
        }),
{
    law_remove_keeps_the_others(heap.maps[heap.map_of(map).unwrap() as int], key.id);
}

/// A map that was cleared is empty.
pub proof fn law_empty_after_clear(heap: HeapView, map: Value)
    requires
        heap.map_of(map) is Some,
    ensures
        ({
            let after = called(heap, MapFunction::Clear, seq![map]).0;
            &&& called(after, MapFunction::IsEmpty, seq![map]).1 == Ok::<
                Reply,
                (Seq<char>, Seq<Value>),
            >(Reply::Bool(true))
            &&& called(after, MapFunction::Size, seq![map]).1 == Ok::<
                Reply,
                (Seq<char>, Seq<Value>),
            >(Reply::Size(0))
        }),
{
}

/// A copy has the entries of the map, and neither of the two follows later changes of the other.
pub proof fn law_copy_is_separate(
    heap: HeapView,
    map: Value,
    function: MapFunction,
    args: Seq<Value>,
)
    requires
        heap.well_formed(),
        heap.map_of(map) is Some,
        heap.maps.len() <= usize::MAX,
        args.len() > 0,
        args[0] == map,
    ensures
        ({
            let copied = called(heap, MapFunction::Copy, seq![map]).0;
            let new = heap.maps.len() as int;
            let copied_from = heap.map_of(map).unwrap() as int;
            &&& called(heap, MapFunction::Copy, seq![map]).1 == Ok::<
                Reply,
                (Seq<char>, Seq<Value>),
            >(Reply::NewMap(new as usize))
            &&& copied.maps[new] == heap.maps[copied_from]
            &&& copied.maps[copied_from] == heap.maps[copied_from]
            &&& called(copied, function, args).0.maps[new] == heap.maps[copied_from]
        }),
{
    let copied = called(heap, MapFunction::Copy, seq![map]).0;
    assert(copied.well_formed());
    law_call_changes_one_map(copied, function, args, heap.maps.len() as int);
}

/// An update that isn't refused hands its function the value for the key, or the default for a key
/// that isn't there, and from then on the key is there.
pub proof fn law_update_has_a_value(
    heap: HeapView,
    map: Value,
    key: Value,
    default: Value,
    function: Value,
)
    requires
        heap.well_formed(),
        heap.map_of(map) is Some,
        key.immutable,
        function.callable,
    ensures
        ({
            let entries = heap.maps[heap.map_of(map).unwrap() as int];
            let (after, answer) = called(
                heap,
                MapFunction::Update,
                seq![map, key, default, function],
            );
            let value = if has_key(entries, key.id) {
                value_for(entries, key.id).unwrap()
            } else {
                default
            };
            &&& answer == Ok::<Reply, (Seq<char>, Seq<Value>)>(
                Reply::RunForUpdate { map: heap.map_of(map).unwrap(), key, function, value },
            )
            &&& value_for(after.maps[heap.map_of(map).unwrap() as int], key.id) == Some(value)
        }),
{
    let entries = heap.maps[heap.map_of(map).unwrap() as int];
    law_insert_then_get(entries, key, default, key.id);
}

/// What an update has come to can be got.
pub proof fn law_get_after_update(heap: HeapView, map: Value, key: Value, value: Value)
    requires
        heap.well_formed(),
        heap.map_of(map) is Some,
    ensures
        ({
            let place = heap.map_of(map).unwrap();
            let after = heap.with_map(place, inserted(heap.maps[place as int], key, value));
            called(after, MapFunction::Get, seq![map, key]).1 == Ok::<
                Reply,
                (Seq<char>, Seq<Value>),
            >(Reply::Value(value))
        }),
{
    law_insert_then_get(heap.maps[heap.map_of(map).unwrap() as int], key, value, key.id);
}

/// The length of a function's name, and its first two characters.
spec fn name_signature(function: MapFunction) -> (int, char, char) {
    match function {
        MapFunction::Clear => (5, 'c', 'l'),
        MapFunction::ContainsKey => (12, 'c', 'o'),
        MapFunction::Copy => (4, 'c', 'o'),
        MapFunction::DeepCopy => (9, 'd', 'e'),
        MapFunction::Get => (3, 'g', 'e'),
        MapFunction::GetIndex => (9, 'g', 'e'),
        MapFunction::Insert => (6, 'i', 'n'),
        MapFunction::IsEmpty => (8, 'i', 's'),
        MapFunction::Iter => (4, 'i', 't'),
        MapFunction::Keys => (4, 'k', 'e'),
        MapFunction::Remove => (6, 'r', 'e'),
        MapFunction::Sort => (4, 's', 'o'),
        MapFunction::Size => (4, 's', 'i'),
        MapFunction::Update => (6, 'u', 'p'),
        MapFunction::Values => (6, 'v', 'a'),
    }
}

proof fn lemma_name_signature(function: MapFunction)
    ensures
        function_name(function).len() == name_signature(function).0,
        function_name(function)[0] == name_signature(function).1,
        function_name(function)[1] == name_signature(function).2,
{
    match function {
        MapFunction::Clear => {
            reveal_strlit("clear");
        },
        MapFunction::ContainsKey => {
            reveal_strlit("contains_key");
        },
        MapFunction::Copy => {
            reveal_strlit("copy");
        },
        MapFunction::DeepCopy => {
            reveal_strlit("deep_copy");
        },
        MapFunction::Get => {
            reveal_strlit("get");
        },
        MapFunction::GetIndex => {
            reveal_strlit("get_index");
        },
        MapFunction::Insert => {
            reveal_strlit("insert");
        },
        MapFunction::IsEmpty => {
            reveal_strlit("is_empty");
        },
        MapFunction::Iter => {
            reveal_strlit("iter");
        },
        MapFunction::Keys => {
            reveal_strlit("keys");
        },
        MapFunction::Remove => {
            reveal_strlit("remove");
        },
        MapFunction::Sort => {
            reveal_strlit("sort");
        },
        MapFunction::Size => {
            reveal_strlit("size");
        },
        MapFunction::Update => {
            reveal_strlit("update");
        },
        MapFunction::Values => {
            reveal_strlit("values");
        },
    }
}

/// No two functions of the module have the same name.
pub proof fn law_names_are_distinct(a: MapFunction, b: MapFunction)
    requires
        function_name(a) == function_name(b),
    ensures
        a == b,
{
    lemma_name_signature(a);
    lemma_name_signature(b);
}

/// Every function is part of the module.
pub proof fn law_module_is_complete(function: MapFunction)
    ensures
        all_functions().contains(function),
{
    let index: int = match function {
        MapFunction::Clear => 0,
        MapFunction::ContainsKey => 1,
        MapFunction::Copy => 2,
        MapFunction::DeepCopy => 3,
        MapFunction::Get => 4,
        MapFunction::GetIndex => 5,
        MapFunction::Insert => 6,
        MapFunction::IsEmpty => 7,
        MapFunction::Iter => 8,
        MapFunction::Keys => 9,
        MapFunction::Remove => 10,
        MapFunction::Sort => 11,
        MapFunction::Size => 12,
        MapFunction::Update => 13,
        MapFunction::Values => 14,
    };
    assert(all_functions()[index] == function);
}

} // verus!
