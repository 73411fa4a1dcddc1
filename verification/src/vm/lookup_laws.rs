//! What is found by name, by number and by prototype, in terms of the tables of
//! the dex files.

use vstd::prelude::*;
use std::sync::Arc;
use crate::models;
use crate::models::{Class, DexFile, MethodData, ValueType};
use crate::search;
use crate::text;
use crate::vm::exception::ExceptionView;
use crate::vm::semantics;
use crate::vm::state::VMView;

verus! {

// ---------------------------------------------------------------------------
// Tables
// ---------------------------------------------------------------------------

/// A string of the table is found at its place, and nothing outside the table. So
/// are the names of types.
pub proof fn law_tables(file: DexFile, i: int)
    ensures
        0 <= i < file.strings@.len() ==> file.string_at(i) == Some(file.strings@[i]@),
        i < 0 || i >= file.strings@.len() ==> file.string_at(i) is None,
        0 <= i < file.type_names@.len() ==> file.type_name_at(i) == Some(file.type_names@[i]@),
        i < 0 || i >= file.type_names@.len() ==> file.type_name_at(i) is None,
{
}

/// The first item that is asked for is found: none before it is asked for, and
/// where none is found, none is asked for.
pub proof fn law_search<T>(s: Seq<T>, p: spec_fn(T) -> bool)
    ensures
        match search::first(s, p) {
            Some(x) => exists|i: int|
                0 <= i < s.len() && #[trigger] s[i] == x && p(x) && forall|j: int| 0 <= j < i ==> !p(#[trigger] s[j]),
            None => forall|j: int| 0 <= j < s.len() ==> !p(#[trigger] s[j]),
        },
        match search::first_index(s, p) {
            Some(i) => 0 <= i < s.len() && p(s[i]) && forall|j: int| 0 <= j < i ==> !p(#[trigger] s[j]),
            None => forall|j: int| 0 <= j < s.len() ==> !p(#[trigger] s[j]),
        },
{
    if exists|i: int| search::is_first(s, p, i) {
        let i = choose|i: int| search::is_first(s, p, i);
        search::lemma_first(s, p, i);
        assert(s[i] == search::first(s, p)->0);
    } else {
        search::lemma_none_holds(s, p);
    }
}

/// The class at `i` is the first whose type is `type_idx`.
pub open spec fn is_class_of_type(file: DexFile, type_idx: u32, i: int) -> bool {
    &&& 0 <= i < file.classes@.len()
    &&& file.classes@[i].class_idx == type_idx
    &&& forall|j: int| 0 <= j < i ==> (#[trigger] file.classes@[j]).class_idx != type_idx
}

/// No class has the type `type_idx`.
pub open spec fn no_class_of_type(file: DexFile, type_idx: u32) -> bool {
    forall|j: int| 0 <= j < file.classes@.len() ==> (#[trigger] file.classes@[j]).class_idx != type_idx
}

/// A class is found by the number of its type.
pub proof fn law_class_of_type(file: DexFile, type_idx: u32)
    ensures
        match search::first(file.classes@, models::class_of_type(type_idx)) {
            Some(class) => class.class_idx == type_idx && exists|i: int|
                #[trigger] is_class_of_type(file, type_idx, i) && class == file.classes@[i],
            None => no_class_of_type(file, type_idx),
        },
        forall|i: int| #[trigger]
            is_class_of_type(file, type_idx, i) ==> search::first(file.classes@, models::class_of_type(type_idx)) == Some(
                file.classes@[i],
            ),
        no_class_of_type(file, type_idx) ==> search::first(file.classes@, models::class_of_type(type_idx)) is None,
{
    let p = models::class_of_type(type_idx);
    law_search(file.classes@, p);
    if search::first(file.classes@, p) is Some {
        let i = search::first_index(file.classes@, p)->0;
        assert forall|j: int| 0 <= j < i implies (#[trigger] file.classes@[j]).class_idx != type_idx by {
            assert(!p(file.classes@[j]));
        }
        assert(is_class_of_type(file, type_idx, i));
    } else {
        assert forall|j: int| 0 <= j < file.classes@.len() implies (#[trigger] file.classes@[j]).class_idx != type_idx by {
            assert(!p(file.classes@[j]));
        }
    }
    assert forall|i: int| #[trigger] is_class_of_type(file, type_idx, i) implies search::first(file.classes@, p) == Some(
        file.classes@[i],
    ) by {
        assert(search::is_first(file.classes@, p, i));
        search::lemma_first(file.classes@, p, i);
    }
}

/// The class at `i` is the first called `name`.
pub open spec fn is_class_called(file: DexFile, name: Seq<char>, i: int) -> bool {
    &&& 0 <= i < file.classes@.len()
    &&& file.classes@[i].class_name@ == name
    &&& forall|j: int| 0 <= j < i ==> (#[trigger] file.classes@[j]).class_name@ != name
}

/// No class is called `name`.
pub open spec fn no_class_called(file: DexFile, name: Seq<char>) -> bool {
    forall|j: int| 0 <= j < file.classes@.len() ==> (#[trigger] file.classes@[j]).class_name@ != name
}

/// A class is found by its name.
pub proof fn law_class_called(file: DexFile, name: Seq<char>)
    ensures
        match search::first(file.classes@, models::class_called(name)) {
            Some(class) => class.class_name@ == name && exists|i: int|
                #[trigger] is_class_called(file, name, i) && class == file.classes@[i],
            None => no_class_called(file, name),
        },
        forall|i: int| #[trigger]
            is_class_called(file, name, i) ==> search::first(file.classes@, models::class_called(name)) == Some(
                file.classes@[i],
            ),
        no_class_called(file, name) ==> search::first(file.classes@, models::class_called(name)) is None,
{
    let p = models::class_called(name);
    law_search(file.classes@, p);
    if search::first(file.classes@, p) is Some {
        let i = search::first_index(file.classes@, p)->0;
        assert forall|j: int| 0 <= j < i implies (#[trigger] file.classes@[j]).class_name@ != name by {
            assert(!p(file.classes@[j]));
        }
        assert(is_class_called(file, name, i));
    } else {
        assert forall|j: int| 0 <= j < file.classes@.len() implies (#[trigger] file.classes@[j]).class_name@ != name by {
            assert(!p(file.classes@[j]));
        }
    }
    assert forall|i: int| #[trigger] is_class_called(file, name, i) implies search::first(file.classes@, p) == Some(
        file.classes@[i],
    ) by {
        assert(search::is_first(file.classes@, p, i));
        search::lemma_first(file.classes@, p, i);
    }
}

/// A method of a class is found by its number or by its name: the first one that
/// has it.
pub proof fn law_method_of_class(class: Class, number: u32, name: Seq<char>)
    ensures
        match search::first(class.codes@, models::method_numbered(number)) {
            Some(method) => method.method_idx == number && exists|i: int|
                0 <= i < class.codes@.len() && #[trigger] class.codes@[i] == method && forall|j: int|
                    0 <= j < i ==> (#[trigger] class.codes@[j]).method_idx != number,
            None => forall|j: int| 0 <= j < class.codes@.len() ==> (#[trigger] class.codes@[j]).method_idx != number,
        },
        match search::first(class.codes@, models::method_called(name)) {
            Some(method) => method.name@ == name && exists|i: int|
                0 <= i < class.codes@.len() && #[trigger] class.codes@[i] == method && forall|j: int|
                    0 <= j < i ==> (#[trigger] class.codes@[j]).name@ != name,
            None => forall|j: int| 0 <= j < class.codes@.len() ==> (#[trigger] class.codes@[j]).name@ != name,
        },
{
    let p = models::method_numbered(number);
    let q = models::method_called(name);
    law_search(class.codes@, p);
    law_search(class.codes@, q);
    assert forall|j: int| 0 <= j < class.codes@.len() && !p(class.codes@[j]) implies (#[trigger] class.codes@[j]).method_idx
        != number by {}
    assert forall|j: int| 0 <= j < class.codes@.len() && !q(class.codes@[j]) implies (#[trigger] class.codes@[j]).name@
        != name by {}
    if search::first(class.codes@, p) is Some {
        let i = search::first_index(class.codes@, p)->0;
        assert forall|j: int| 0 <= j < i implies (#[trigger] class.codes@[j]).method_idx != number by {
            assert(!p(class.codes@[j]));
        }
        assert(class.codes@[i] == search::first(class.codes@, p)->0);
    }
    if search::first(class.codes@, q) is Some {
        let i = search::first_index(class.codes@, q)->0;
        assert forall|j: int| 0 <= j < i implies (#[trigger] class.codes@[j]).name@ != name by {
            assert(!q(class.codes@[j]));
        }
        assert(class.codes@[i] == search::first(class.codes@, q)->0);
    }
}

/// The initializer of a class is its first method with that name.
pub proof fn law_initializer(class: Class)
    ensures
        match semantics::initializer(class) {
            Some(method) => method.name@ == "<clinit>"@ && exists|i: int|
                0 <= i < class.codes@.len() && #[trigger] class.codes@[i] == method && forall|j: int|
                    0 <= j < i ==> (#[trigger] class.codes@[j]).name@ != "<clinit>"@,
            None => forall|j: int| 0 <= j < class.codes@.len() ==> (#[trigger] class.codes@[j]).name@ != "<clinit>"@,
        },
{
    law_method_of_class(class, 0, "<clinit>"@);
}

/// The entry at `i` is the first initial value of a static field.
pub open spec fn is_initial_value(class: Class, field: u32, i: int) -> bool {
    &&& 0 <= i < class.static_fields@.len()
    &&& class.static_fields@[i].0 == field
    &&& forall|j: int| 0 <= j < i ==> (#[trigger] class.static_fields@[j]).0 != field
}

/// A static field starts with the value of its first entry.
pub proof fn law_initial_value(class: Class, field: u32)
    ensures
        match class.static_value(field) {
            Some(item) => exists|i: int| #[trigger] is_initial_value(class, field, i) && class.static_fields@[i].1 == item,
            None => forall|j: int| 0 <= j < class.static_fields@.len() ==> (#[trigger] class.static_fields@[j]).0 != field,
        },
{
    let p = models::value_of_field(field);
    law_search(class.static_fields@, p);
    match search::first_index(class.static_fields@, p) {
        Some(i) => {
            assert forall|j: int| 0 <= j < i implies (#[trigger] class.static_fields@[j]).0 != field by {
                assert(!p(class.static_fields@[j]));
            }
            assert(is_initial_value(class, field, i));
        },
        None => {
            assert forall|j: int| 0 <= j < class.static_fields@.len() implies (#[trigger] class.static_fields@[j]).0
                != field by {
                assert(!p(class.static_fields@[j]));
            }
        },
    }
}

/// The text that a static field starts with is the string that its initial value
/// points to; a value of another kind is no text.
pub proof fn law_initial_text(file: DexFile, class: Class, field: u16, i: int)
    ensures
        is_initial_value(class, field as u32, i) ==> ({
            let item = class.static_fields@[i].1;
            if item.value_type == ValueType::String && item.index < file.strings@.len() {
                semantics::initial_text(file, class, field) == Some(file.strings@[item.index as int]@)
            } else {
                semantics::initial_text(file, class, field) is None
            }
        }),
        (forall|j: int| 0 <= j < class.static_fields@.len() ==> (#[trigger] class.static_fields@[j]).0 != field as u32)
            ==> semantics::initial_text(file, class, field) is None,
{
    law_initial_value(class, field as u32);
    if is_initial_value(class, field as u32, i) {
        let p = models::value_of_field(field as u32);
        assert(search::is_first(class.static_fields@, p, i));
        search::lemma_first(class.static_fields@, p, i);
    }
}

// ---------------------------------------------------------------------------
// Methods
// ---------------------------------------------------------------------------

/// The method `j` of the class `i` of a file has this number.
pub open spec fn numbers(file: DexFile, number: u32, i: int, j: int) -> bool {
    &&& 0 <= i < file.classes@.len()
    &&& 0 <= j < file.classes@[i].codes@.len()
    &&& file.classes@[i].codes@[j].method_idx == number
}

/// It is the first one of the file: in the first class that has one, the first.
pub open spec fn numbers_first(file: DexFile, number: u32, i: int, j: int) -> bool {
    &&& numbers(file, number, i, j)
    &&& forall|k: int, l: int| #[trigger] numbers(file, number, k, l) ==> k > i || (k == i && l >= j)
}

/// A method is found by its number: the first one in the file.
pub proof fn law_method_numbered(file: DexFile, number: u32)
    ensures
        match file.method_at(number) {
            Some(method) => method.method_idx == number && exists|i: int, j: int| #[trigger]
                numbers_first(file, number, i, j) && file.classes@[i].codes@[j] == method,
            None => numbers_none(file, number),
        },
{
    let p = models::method_numbered(number);
    let q = models::defines(p);
    law_search(file.classes@, q);
    match search::first_index(file.classes@, q) {
        Some(i) => {
            let class = file.classes@[i];
            law_search(class.codes@, p);
            let j = search::first_index(class.codes@, p)->0;
            assert(numbers(file, number, i, j));
            assert forall|k: int, l: int| #[trigger] numbers(file, number, k, l) implies k > i || (k == i && l >= j) by {
                assert(p(file.classes@[k].codes@[l]));
                if k < i {
                    assert(!q(file.classes@[k]));
                    search::lemma_some_first(file.classes@[k].codes@, p, l);
                }
                if k == i && l < j {
                    assert(!p(class.codes@[l]));
                }
            }
            assert(numbers_first(file, number, i, j));
        },
        None => {
            assert forall|i: int, j: int| !#[trigger] numbers(file, number, i, j) by {
                if numbers(file, number, i, j) {
                    assert(p(file.classes@[i].codes@[j]));
                    search::lemma_some_first(file.classes@[i].codes@, p, j);
                    assert(!q(file.classes@[i]));
                }
            }
        },
    }
}

/// The method `j` of the class `i` of a file belongs to a class called `class`, is
/// called `name` and has the prototype `proto`.
pub open spec fn declares(file: DexFile, class: Seq<char>, name: Seq<char>, proto: Seq<char>, i: int, j: int) -> bool {
    &&& 0 <= i < file.classes@.len()
    &&& file.classes@[i].class_name@ == class
    &&& 0 <= j < file.classes@[i].codes@.len()
    &&& file.classes@[i].codes@[j].name@ == name
    &&& file.classes@[i].codes@[j].method.proto_name@ == proto
}

/// It is the first one of the file.
pub open spec fn declares_first(file: DexFile, class: Seq<char>, name: Seq<char>, proto: Seq<char>, i: int, j: int) -> bool {
    &&& declares(file, class, name, proto, i, j)
    &&& forall|k: int, l: int| #[trigger] declares(file, class, name, proto, k, l) ==> k > i || (k == i && l >= j)
}

/// A method is found by its class, its name and its prototype, all three: the first
/// one in the file that has them.
pub proof fn law_method_declared(file: DexFile, class: Seq<char>, name: Seq<char>, proto: Seq<char>)
    ensures
        match file.method_declared_as(class, name, proto) {
            Some(method) => {
                &&& method.name@ == name
                &&& method.method.proto_name@ == proto
                &&& exists|i: int, j: int| #[trigger]
                    declares_first(file, class, name, proto, i, j) && file.classes@[i].codes@[j] == method
            },
            None => forall|i: int, j: int| !#[trigger] declares(file, class, name, proto, i, j),
        },
{
    let p = models::method_declared(name, proto);
    let q = models::called_and_defines(class, p);
    law_search(file.classes@, q);
    match search::first_index(file.classes@, q) {
        Some(i) => {
            let codes = file.classes@[i].codes@;
            law_search(codes, p);
            let j = search::first_index(codes, p)->0;
            assert(declares(file, class, name, proto, i, j));
            assert forall|k: int, l: int| #[trigger] declares(file, class, name, proto, k, l) implies k > i || (k == i && l
                >= j) by {
                assert(p(file.classes@[k].codes@[l]));
                if k < i {
                    assert(!q(file.classes@[k]));
                    search::lemma_some_first(file.classes@[k].codes@, p, l);
                }
                if k == i && l < j {
                    assert(!p(codes[l]));
                }
            }
            assert(declares_first(file, class, name, proto, i, j));
        },
        None => {
            assert forall|i: int, j: int| !#[trigger] declares(file, class, name, proto, i, j) by {
                if declares(file, class, name, proto, i, j) {
                    assert(p(file.classes@[i].codes@[j]));
                    search::lemma_some_first(file.classes@[i].codes@, p, j);
                    assert(!q(file.classes@[i]));
                }
            }
        },
    }
}

/// No file of `files` before position `k` declares the method.
pub open spec fn none_declares_before(files: Seq<Arc<DexFile>>, k: int, class: Seq<char>, name: Seq<char>, proto: Seq<char>) -> bool {
    forall|l: int, i: int, j: int| 0 <= l < k && l < files.len() ==> !#[trigger] declares(*files[l], class, name, proto, i, j)
}

/// A method that is linked through the runtime has the class name, the method name
/// and the prototype that were asked for. It is the first such method of the first
/// file that declares one, and the link fails only where no file does.
pub proof fn law_linked_as_asked(runtime: Seq<Arc<DexFile>>, class: Seq<char>, name: Seq<char>, proto: Seq<char>)
    ensures
        match semantics::find_declared(runtime, class, name, proto) {
            Ok((file, method)) => {
                &&& method.name@ == name
                &&& method.method.proto_name@ == proto
                &&& exists|i: int, j: int| #[trigger]
                    declares_first(*file, class, name, proto, i, j) && file.classes@[i].codes@[j] == method
                &&& exists|k: int|
                    0 <= k < runtime.len() && #[trigger] runtime[k] == file && none_declares_before(
                        runtime,
                        k,
                        class,
                        name,
                        proto,
                    )
            },
            Err(exception) => {
                &&& exception == ExceptionView::LinkerError
                &&& none_declares_before(runtime, runtime.len() as int, class, name, proto)
            },
        },
{
    let q = semantics::has_method(class, name, proto);
    law_search(runtime, q);
    assert forall|l: int| 0 <= l < runtime.len() && !q(#[trigger] runtime[l]) implies forall|i: int, j: int|
        !#[trigger] declares(*runtime[l], class, name, proto, i, j) by {
        lemma_declared(runtime[l], class, name, proto);
    }
    match search::first_index(runtime, q) {
        Some(k) => {
            lemma_declared(runtime[k], class, name, proto);
            assert forall|l: int, i: int, j: int| 0 <= l < k && l < runtime.len() implies !#[trigger] declares(
                *runtime[l],
                class,
                name,
                proto,
                i,
                j,
            ) by {
                assert(!q(runtime[l]));
            }
            assert(none_declares_before(runtime, k, class, name, proto));
        },
        None => {
            assert forall|l: int, i: int, j: int| 0 <= l < runtime.len() implies !#[trigger] declares(
                *runtime[l],
                class,
                name,
                proto,
                i,
                j,
            ) by {
                assert(!q(runtime[l]));
            }
        },
    }
}

proof fn lemma_declared(file: Arc<DexFile>, class: Seq<char>, name: Seq<char>, proto: Seq<char>)
    ensures
        match file.method_declared_as(class, name, proto) {
            Some(method) => {
                &&& method.name@ == name
                &&& method.method.proto_name@ == proto
                &&& exists|i: int, j: int| #[trigger]
                    declares_first(*file, class, name, proto, i, j) && file.classes@[i].codes@[j] == method
            },
            None => forall|i: int, j: int| !#[trigger] declares(*file, class, name, proto, i, j),
        },
{
    lemma_all_declared(class, name, proto);
    assert(is_declared(*file, class, name, proto));
}

spec fn is_declared(file: DexFile, class: Seq<char>, name: Seq<char>, proto: Seq<char>) -> bool {
    match file.method_declared_as(class, name, proto) {
        Some(method) => {
            &&& method.name@ == name
            &&& method.method.proto_name@ == proto
            &&& exists|i: int, j: int| #[trigger]
                declares_first(file, class, name, proto, i, j) && file.classes@[i].codes@[j] == method
        },
        None => forall|i: int, j: int| !#[trigger] declares(file, class, name, proto, i, j),
    }
}

proof fn lemma_all_declared(class: Seq<char>, name: Seq<char>, proto: Seq<char>)
    ensures
        forall|file: DexFile| #[trigger] is_declared(file, class, name, proto),
{
    assert forall|file: DexFile| #[trigger] is_declared(file, class, name, proto) by {
        law_method_declared(file, class, name, proto);
    }
}

/// The method that a dex file numbers is the one it defines under that number. One
/// that it only lists is linked by the class, the name and the prototype of the
/// list; what the list lacks is reported.
pub proof fn law_method_found(runtime: Seq<Arc<DexFile>>, dex: Arc<DexFile>, number: u32, i: int, j: int)
    requires
        numbers_first(*dex, number, i, j) || numbers_none(*dex, number),
    ensures
        ({
            let found = semantics::find_method(runtime, dex, number);
            if numbers_first(*dex, number, i, j) {
                found == Ok::<(Arc<DexFile>, MethodData), ExceptionView>((dex, dex.classes@[i].codes@[j]))
            } else if number >= dex.methods@.len() {
                found == Err::<(Arc<DexFile>, MethodData), ExceptionView>(
                    ExceptionView::MethodNotFound("Method Index: "@ + text::decimal_digits(number as nat)),
                )
            } else {
                let entry = dex.methods@[number as int];
                if entry.proto_idx >= dex.protos@.len() {
                    found == Err::<(Arc<DexFile>, MethodData), ExceptionView>(
                        ExceptionView::MethodNotFound(
                            "Method Index: "@ + text::decimal_digits(number as nat) + ", Proto Index: "@
                                + text::decimal_digits(entry.proto_idx as nat),
                        ),
                    )
                } else if entry.class_idx >= dex.type_names@.len() {
                    found == Err::<(Arc<DexFile>, MethodData), ExceptionView>(ExceptionView::ClassNotFound(entry.class_idx))
                } else {
                    found == semantics::find_declared(
                        runtime,
                        dex.type_names@[entry.class_idx as int]@,
                        entry.method_name@,
                        dex.protos@[entry.proto_idx as int].descriptor@,
                    )
                }
            }
        }),
{
    lemma_numbered();
}

/// No method of a file has this number.
pub open spec fn numbers_none(file: DexFile, number: u32) -> bool {
    forall|i: int, j: int| !#[trigger] numbers(file, number, i, j)
}

pub(crate) proof fn lemma_numbered()
    ensures
        forall|file: DexFile, number: u32, i: int, j: int| #[trigger]
            numbers_first(file, number, i, j) ==> file.method_at(number) == Some(file.classes@[i].codes@[j]),
        forall|file: DexFile, number: u32| #[trigger] numbers_none(file, number) ==> file.method_at(number) is None,
{
    assert forall|file: DexFile, number: u32, i: int, j: int| #[trigger] numbers_first(file, number, i, j) implies file.method_at(
        number,
    ) == Some(file.classes@[i].codes@[j]) by {
        law_method_numbered(file, number);
        assert(numbers(file, number, i, j));
        let (k, l) = choose|k: int, l: int| #[trigger]
            numbers_first(file, number, k, l) && file.classes@[k].codes@[l] == file.method_at(number)->0;
        assert(numbers(file, number, k, l));
    }
    assert forall|file: DexFile, number: u32| #[trigger] numbers_none(file, number) implies file.method_at(number) is None by {
        law_method_numbered(file, number);
        if file.method_at(number) is Some {
            let (k, l) = choose|k: int, l: int| #[trigger]
                numbers_first(file, number, k, l) && file.classes@[k].codes@[l] == file.method_at(number)->0;
            assert(numbers(file, number, k, l));
        }
    }
}

// ---------------------------------------------------------------------------
// Classes, fields and files
// ---------------------------------------------------------------------------

pub(crate) proof fn lemma_classes()
    ensures
        forall|file: DexFile, type_idx: u32, i: int| #[trigger]
            is_class_of_type(file, type_idx, i) ==> search::first(file.classes@, models::class_of_type(type_idx)) == Some(
                file.classes@[i],
            ),
        forall|file: DexFile, type_idx: u32| #[trigger]
            no_class_of_type(file, type_idx) ==> search::first(file.classes@, models::class_of_type(type_idx)) is None,
        forall|file: DexFile, name: Seq<char>, i: int| #[trigger]
            is_class_called(file, name, i) ==> search::first(file.classes@, models::class_called(name)) == Some(
                file.classes@[i],
            ),
        forall|file: DexFile, name: Seq<char>| #[trigger]
            no_class_called(file, name) ==> search::first(file.classes@, models::class_called(name)) is None,
{
    assert forall|file: DexFile, type_idx: u32, i: int| #[trigger] is_class_of_type(file, type_idx, i) implies search::first(
        file.classes@,
        models::class_of_type(type_idx),
    ) == Some(file.classes@[i]) by {
        law_class_of_type(file, type_idx);
    }
    assert forall|file: DexFile, type_idx: u32| #[trigger] no_class_of_type(file, type_idx) implies search::first(
        file.classes@,
        models::class_of_type(type_idx),
    ) is None by {
        law_class_of_type(file, type_idx);
    }
    assert forall|file: DexFile, name: Seq<char>, i: int| #[trigger] is_class_called(file, name, i) implies search::first(
        file.classes@,
        models::class_called(name),
    ) == Some(file.classes@[i]) by {
        law_class_called(file, name);
    }
    assert forall|file: DexFile, name: Seq<char>| #[trigger] no_class_called(file, name) implies search::first(
        file.classes@,
        models::class_called(name),
    ) is None by {
        law_class_called(file, name);
    }
}

/// The name under which a field is stored: that of the class that declares it, an
/// arrow, and its own.
pub open spec fn stored_as(dex: DexFile, field: u16, i: int, name: Seq<char>) -> bool {
    &&& field < dex.fields@.len()
    &&& is_class_of_type(dex, dex.fields@[field as int].class_idx as u32, i)
    &&& name == dex.classes@[i].class_name@ + "->"@ + dex.fields@[field as int].name@
}

/// A field is stored under the name of its class, an arrow and its own name; a
/// field that is not listed, or whose class the file does not define, has no name.
pub proof fn law_field_name(dex: DexFile, field: u16)
    ensures
        forall|i: int, name: Seq<char>| #[trigger]
            stored_as(dex, field, i, name) ==> semantics::field_name(dex, field) == Ok::<Seq<char>, ExceptionView>(name),
        field >= dex.fields@.len() ==> semantics::field_name(dex, field) == Err::<Seq<char>, ExceptionView>(
            ExceptionView::ClassNotFound(0),
        ),
        field < dex.fields@.len() && no_class_of_type(dex, dex.fields@[field as int].class_idx as u32)
            ==> semantics::field_name(dex, field) == Err::<Seq<char>, ExceptionView>(
            ExceptionView::ClassNotFound(dex.fields@[field as int].class_idx),
        ),
{
    lemma_classes();
}

pub(crate) proof fn lemma_field_names()
    ensures
        forall|dex: DexFile, field: u16, i: int, name: Seq<char>| #[trigger]
            stored_as(dex, field, i, name) ==> semantics::field_name(dex, field) == Ok::<Seq<char>, ExceptionView>(name),
{
    assert forall|dex: DexFile, field: u16, i: int, name: Seq<char>| #[trigger]
        stored_as(dex, field, i, name) implies semantics::field_name(dex, field) == Ok::<Seq<char>, ExceptionView>(name) by {
        law_field_name(dex, field);
    }
}

/// The class `l` of the file `k` is the first in the runtime called `name`.
pub open spec fn in_runtime(files: Seq<Arc<DexFile>>, name: Seq<char>, k: int, l: int) -> bool {
    &&& 0 <= k < files.len()
    &&& is_class_called(*files[k], name, l)
    &&& forall|j: int| 0 <= j < k ==> no_class_called(*#[trigger] files[j], name)
}

/// No file of the runtime defines a class called `name`.
pub open spec fn not_in_runtime(files: Seq<Arc<DexFile>>, name: Seq<char>) -> bool {
    forall|j: int| 0 <= j < files.len() ==> no_class_called(*#[trigger] files[j], name)
}

/// The class of a type comes from the file itself, else by its name from the
/// first file of the runtime that defines it, else from the builtins.
pub proof fn law_class_found(vm: VMView, dex: DexFile, type_idx: u32, i: int, k: int, l: int)
    ensures
        ({
            let found = semantics::find_class(vm, dex, type_idx);
            let name = dex.type_names@[type_idx as int]@;
            &&& is_class_of_type(dex, type_idx, i) ==> found == Ok::<Class, ExceptionView>(*dex.classes@[i])
            &&& no_class_of_type(dex, type_idx) && type_idx >= dex.type_names@.len() ==> found == Err::<Class, ExceptionView>(
                ExceptionView::ClassNotFound(type_idx as u16),
            )
            &&& no_class_of_type(dex, type_idx) && type_idx < dex.type_names@.len() && in_runtime(vm.runtime, name, k, l)
                ==> found == Ok::<Class, ExceptionView>(*vm.runtime[k].classes@[l])
            &&& no_class_of_type(dex, type_idx) && type_idx < dex.type_names@.len() && not_in_runtime(vm.runtime, name)
                ==> found == (if vm.builtins.contains_key(name) {
                Ok::<Class, ExceptionView>(vm.builtins[name])
            } else {
                Err(ExceptionView::ClassNotFound(type_idx as u16))
            })
        }),
{
    lemma_classes();
    let name = dex.type_names@[type_idx as int]@;
    let q = semantics::has_class(name);
    if in_runtime(vm.runtime, name, k, l) {
        assert(search::is_first(vm.runtime, q, k));
        search::lemma_first(vm.runtime, q, k);
    }
    if not_in_runtime(vm.runtime, name) {
        search::lemma_no_first(vm.runtime, q);
    }
}

/// A file is found by its identifier: the main one, else the first of the runtime
/// that has it.
pub proof fn law_file_found(vm: VMView, identifier: Seq<char>, k: int)
    ensures
        vm.dex_file.identifier@ == identifier ==> semantics::find_file(vm, identifier) == Some(vm.dex_file),
        vm.dex_file.identifier@ != identifier && 0 <= k < vm.runtime.len() && vm.runtime[k].identifier@ == identifier && (
        forall|j: int| 0 <= j < k ==> (#[trigger] vm.runtime[j]).identifier@ != identifier) ==> semantics::find_file(vm, identifier)
            == Some(vm.runtime[k]),
        vm.dex_file.identifier@ != identifier && (forall|j: int|
            0 <= j < vm.runtime.len() ==> (#[trigger] vm.runtime[j]).identifier@ != identifier) ==> semantics::find_file(
            vm,
            identifier,
        ) is None,
{
    let p = semantics::identified(identifier);
    if 0 <= k < vm.runtime.len() && vm.runtime[k].identifier@ == identifier && (forall|j: int|
        0 <= j < k ==> (#[trigger] vm.runtime[j]).identifier@ != identifier) {
        assert(search::is_first(vm.runtime, p, k));
        search::lemma_first(vm.runtime, p, k);
    }
    if forall|j: int| 0 <= j < vm.runtime.len() ==> (#[trigger] vm.runtime[j]).identifier@ != identifier {
        search::lemma_no_first(vm.runtime, p);
    }
}

// ---------------------------------------------------------------------------
// Text
// ---------------------------------------------------------------------------

/// The number that a text of decimal digits stands for.
pub open spec fn number_written(digits: Seq<char>) -> int
    decreases digits.len(),
{
    if digits.len() == 0 {
        0
    } else {
        10 * number_written(digits.drop_last()) + (digits.last() as int - '0' as int)
    }
}

/// A number is written in decimal digits, without leading zeros, and reads as
/// itself.
pub proof fn law_decimal(n: nat)
    ensures
        number_written(text::decimal_digits(n)) == n,
        forall|i: int| 0 <= i < text::decimal_digits(n).len() ==> '0' <= #[trigger] text::decimal_digits(n)[i] <= '9',
        text::decimal_digits(n).len() >= 1,
        text::decimal_digits(n)[0] == '0' ==> n == 0 && text::decimal_digits(n).len() == 1,
    decreases n,
{
    let digits = text::decimal_digits(n);
    if n < 10 {
        assert(digits.drop_last() =~= Seq::<char>::empty());
        assert(number_written(digits.drop_last()) == 0);
    } else {
        law_decimal(n / 10);
        assert(digits.drop_last() =~= text::decimal_digits(n / 10));
    }
}

} // verus!
