use std::sync::Arc;

use coeus_emulation::models::{BinaryObject, DexFile, Files, MultiDexFile};
use coeus_emulation::name_map::NameMap;
use coeus_emulation::scripting::{get_binaries, get_multi_dex};

fn app(identifier: &str) -> Arc<MultiDexFile> {
    Arc::new(MultiDexFile {
        primary: Arc::new(DexFile {
            identifier: identifier.to_string(),
            strings: vec![],
            type_names: vec![],
            protos: vec![],
            fields: vec![],
            methods: vec![],
            classes: vec![],
        }),
        secondary: vec![],
    })
}

fn files() -> Files {
    let mut binaries: NameMap<Arc<BinaryObject>> = NameMap::new();
    binaries.insert("b.so".to_string(), Arc::new(BinaryObject { data: vec![1] }));
    binaries.insert("a.png".to_string(), Arc::new(BinaryObject { data: vec![2] }));
    binaries.insert("b.so".to_string(), Arc::new(BinaryObject { data: vec![3, 4] }));
    Files { multi_dex: vec![app("one"), app("two")], binaries }
}

#[test]
fn scripts_see_the_apps_in_order() {
    let mut files = files();
    let array = get_multi_dex(&mut files);
    assert_eq!(array.len(), 2);
    for (value, name) in array.into_iter().zip(vec!["one", "two"]) {
        assert!(value.is::<Arc<MultiDexFile>>());
        assert_eq!(value.cast::<Arc<MultiDexFile>>().primary.identifier, name);
    }
    assert_eq!(files.multi_dex.len(), 2);
}

#[test]
fn scripts_see_the_other_files_by_name() {
    let mut files = files();
    let map = get_binaries(&mut files).map;
    assert_eq!(map.len(), 2);
    let data = |name: &str| map[name].clone().cast::<Arc<BinaryObject>>().data.clone();
    assert_eq!(data("a.png"), vec![2]);
    assert_eq!(data("b.so"), vec![3, 4]);
}

#[test]
fn scripts_see_nothing_where_nothing_was_loaded() {
    let mut files = Files { multi_dex: vec![], binaries: NameMap::new() };
    assert!(get_multi_dex(&mut files).is_empty());
    assert!(get_binaries(&mut files).map.is_empty());
}
