//! What scripts get to see of the files.

use vstd::prelude::*;
use rhai::Dynamic;
use std::sync::Arc;
use crate::models::{BinaryObject, Files, MultiDexFile};

verus! {

/// rhai's value of any type.
#[verifier::external_type_specification]
#[verifier::external_body]
pub struct ExDynamic(Dynamic);

/// The value that `Dynamic::from` makes of the dex files of an app.
pub uninterp spec fn multi_dex_value(files: MultiDexFile) -> Dynamic;

/// `Dynamic::from`, for the dex files of an app: a value that holds the pointer.
/// The contract says that the files alone decide it.
#[verifier::external_body]
fn multi_dex_dynamic(files: Arc<MultiDexFile>) -> (value: Dynamic)
    ensures
        value == multi_dex_value(*files),
{
    Dynamic::from(files)
}

/// The value that `Dynamic::from` makes of a file that is not code.
pub uninterp spec fn binary_value(binary: BinaryObject) -> Dynamic;

/// `Dynamic::from`, for a file that is not code: a value that holds the pointer.
/// The contract says that the file alone decides it.
#[verifier::external_body]
fn binary_dynamic(binary: Arc<BinaryObject>) -> (value: Dynamic)
    ensures
        value == binary_value(*binary),
{
    Dynamic::from(binary)
}

/// rhai's map from names to values.
#[verifier::external_body]
pub struct ScriptMap {
    pub map: rhai::Map,
}

/// What a map holds.
pub uninterp spec fn entries_of(map: ScriptMap) -> Map<Seq<char>, Dynamic>;

impl ScriptMap {
    /// `rhai::Map::new`: the map that holds nothing.
    #[verifier::external_body]
    fn new() -> (empty: ScriptMap)
        ensures
            forall|name: Seq<char>| !entries_of(empty).contains_key(name),
    {
        ScriptMap { map: rhai::Map::new() }
    }

    /// `rhai::Map::insert`: the map then holds `value` under `name`, in place of
    /// what it held there, and is otherwise unchanged.
    #[verifier::external_body]
    fn insert(&mut self, name: &str, value: Dynamic)
        ensures
            entries_of(*final(self)) == entries_of(*old(self)).insert(name@, value),
    {
        self.map.insert(name.into(), value);
    }
}

/// The apps that were loaded, in their order.
pub fn get_multi_dex(files: &mut Files) -> (array: Vec<Dynamic>)
    ensures
        *final(files) == *old(files),
        array@ == old(files).multi_dex@.map_values(|md: Arc<MultiDexFile>| multi_dex_value(*md)),
{
    let ghost expected = files.multi_dex@.map_values(|md: Arc<MultiDexFile>| multi_dex_value(*md));
    let mut array: Vec<Dynamic> = Vec::new();
    let mut i: usize = 0;
    while i < files.multi_dex.len()
        invariant
            i <= files.multi_dex@.len(),
            *files == *old(files),
            expected == files.multi_dex@.map_values(|md: Arc<MultiDexFile>| multi_dex_value(*md)),
            array@ == expected.take(i as int),
        decreases files.multi_dex@.len() - i,
    {
        array.push(multi_dex_dynamic(files.multi_dex[i].clone()));
        assert(array@ =~= expected.take(i + 1));
        i = i + 1;
    }
    assert(array@ =~= expected);
    array
}

/// The files that are not code, by their names.
pub fn get_binaries(files: &mut Files) -> (map: ScriptMap)
    ensures
        *final(files) == *old(files),
        entries_of(map) == old(files).binaries@.map_values(|binary: BinaryObject| binary_value(binary)),
{
    let ghost expected = files.binaries@.map_values(|binary: BinaryObject| binary_value(binary));
    let names = files.binaries.names();
    let mut map = ScriptMap::new();
    let mut i: usize = 0;
    while i < names.len()
        invariant
            i <= names@.len(),
            *files == *old(files),
            expected == files.binaries@.map_values(|binary: BinaryObject| binary_value(binary)),
            forall|j: int| 0 <= j < names@.len() ==> files.binaries@.contains_key((#[trigger] names@[j])@),
            forall|name: Seq<char>| #[trigger] entries_of(map).contains_key(name) ==> expected.contains_key(name) && entries_of(map)[name] == expected[name],
            forall|j: int| 0 <= j < i ==> entries_of(map).contains_key((#[trigger] names@[j])@),
        decreases names@.len() - i,
    {
        if let Some(binary) = files.binaries.get(names[i].as_str()) {
            map.insert(names[i].as_str(), binary_dynamic(binary.clone()));
        }
        i = i + 1;
    }
    assert(entries_of(map) =~= expected);
    map
}

} // verus!
