//! What one operation gives back of another.

use vstd::prelude::*;
use crate::instruction::{CodeItem, Instruction};
use crate::models;
use crate::models::DexFile;
use crate::search;
use crate::vm::exception::{ExceptionView, ExecutionState};
use crate::vm::machine;
use crate::vm::machine::{Draw, MAX_REDRAWS};
use crate::vm::register::RegisterView;
use crate::vm::runtime;
use crate::vm::semantics;
use crate::vm::semantics::{Choice, Effect, MachineView};
use crate::vm::state::VMView;
use crate::vm::value::{InstanceView, ValueView};

verus! {

/// An object that was put on the heap is found through its register, and no
/// other object has changed.
pub proof fn law_place_reads_back(vm: VMView, address: Option<u32>, ty: Seq<char>, value: ValueView)
    requires
        semantics::is_fresh(vm.heap, address),
    ensures
        ({
            let (after, made) = semantics::place(vm, address, ty, value);
            match made {
                Ok(register) => {
                    &&& register is Reference
                    &&& after.heap.contains_key(register->Reference_1)
                    &&& machine::instance_of(after, register) == value
                    &&& forall|a: u32| #[trigger] vm.heap.contains_key(a) ==> after.heap.contains_key(a) && after.heap[a] == vm.heap[a]
                },
                Err(_) => address is None && after == vm,
            }
        }),
{
}

/// Allocation never gives an address that is in use.
pub proof fn law_allocation_is_fresh(heap: Map<u32, ValueView>, words: Seq<Option<u32>>, address: Option<u32>)
    requires
        machine::allocated(heap, words, address),
    ensures
        semantics::is_fresh(heap, address),
{
}

/// Going through the answers of the generator one by one gives what allocation
/// gives: as long as an answer says to draw again the next one counts, and the
/// last one decides.
pub proof fn law_judging_allocates(heap: Map<u32, ValueView>, words: Seq<Option<u32>>, address: Option<u32>)
    ensures
        machine::allocated(heap, words, address) <==> {
            &&& words.len() > 0
            &&& forall|i: int| 0 <= i < words.len() - 1 ==> machine::judged(heap, i as u32, #[trigger] words[i]) == Draw::Again
            &&& machine::judged(heap, (words.len() - 1) as u32, words.last()) == (match address {
                Some(a) => Draw::Found(a),
                None => Draw::Failed,
            })
        },
{
    let last = words.len() - 1;
    if words.len() > 0 && (forall|i: int|
        0 <= i < words.len() - 1 ==> machine::judged(heap, i as u32, #[trigger] words[i]) == Draw::Again) {
        if last > MAX_REDRAWS {
            assert(machine::judged(heap, MAX_REDRAWS, words[MAX_REDRAWS as int]) == Draw::Again);
        }
        assert(last <= MAX_REDRAWS);
        assert(words[last] == words.last());
    }
    if machine::allocated(heap, words, address) {
        assert forall|i: int| 0 <= i < words.len() - 1 implies machine::judged(heap, i as u32, #[trigger] words[i])
            == Draw::Again by {}
    }
}

/// Of the numbers that the generator gives, allocation takes the first that is
/// not in use. It fails exactly where as many as may be drawn are all in use.
pub proof fn law_first_free_number(heap: Map<u32, ValueView>, numbers: Seq<u32>, words: Seq<Option<u32>>, address: Option<u32>)
    requires
        numbers.len() == MAX_REDRAWS + 1,
        words.len() <= numbers.len(),
        forall|i: int| 0 <= i < words.len() ==> #[trigger] words[i] == Some(numbers[i]),
        machine::allocated(heap, words, address),
    ensures
        address is None <==> forall|i: int| 0 <= i < numbers.len() ==> heap.contains_key(#[trigger] numbers[i]),
        address matches Some(a) ==> {
            let k = words.len() - 1;
            &&& a == numbers[k]
            &&& !heap.contains_key(numbers[k])
            &&& forall|i: int| 0 <= i < k ==> heap.contains_key(#[trigger] numbers[i])
        },
{
    let k = words.len() - 1;
    assert(words[k] == Some(numbers[k]));
    assert forall|i: int| 0 <= i < k implies heap.contains_key(#[trigger] numbers[i]) by {
        assert(words[i] == Some(numbers[i]));
    }
}

/// On an empty heap the first number that comes is taken: allocation fails only
/// where none comes.
pub proof fn law_empty_heap_takes_any_number(words: Seq<Option<u32>>, address: Option<u32>)
    requires
        machine::allocated(Map::empty(), words, address),
    ensures
        words.len() == 1,
        address == words[0],
{
    if words.len() > 1 {
        assert(words[0] matches Some(w) && Map::<u32, ValueView>::empty().contains_key(w));
    }
}

/// Allocation is decided by the answers of the generator and by which addresses
/// are in use: as long as the answers agree it takes equally many of them, and
/// gives the same.
pub proof fn law_same_numbers_same_address(
    a: Map<u32, ValueView>,
    b: Map<u32, ValueView>,
    words: Seq<Option<u32>>,
    others: Seq<Option<u32>>,
    x: Option<u32>,
    y: Option<u32>,
)
    requires
        a.dom() == b.dom(),
        machine::allocated(a, words, x),
        machine::allocated(b, others, y),
        forall|i: int| 0 <= i < words.len() && i < others.len() ==> #[trigger] words[i] == others[i],
    ensures
        words == others,
        x == y,
{
    assert(forall|address: u32| a.contains_key(address) == a.dom().contains(address));
    assert(forall|address: u32| b.contains_key(address) == b.dom().contains(address));
    let n = words.len() - 1;
    let k = others.len() - 1;
    if n < k {
        assert(words[n] == others[n]);
    } else if k < n {
        assert(words[k] == others[k]);
    }
    assert(words =~= others);
}

/// What is drawn for an instruction is not in use.
pub proof fn law_drawn_is_allowed(m: MachineView, choice: Choice)
    requires
        semantics::is_drawn(m, choice),
    ensures
        semantics::is_allowed(m.vm, choice),
{
}

/// Machines, each of which is the one before it with one more object.
pub open spec fn each_places(vms: Seq<VMView>, addresses: Seq<Option<u32>>, types: Seq<Seq<char>>, values: Seq<ValueView>) -> bool {
    &&& vms.len() == addresses.len() + 1
    &&& types.len() == addresses.len()
    &&& values.len() == addresses.len()
    &&& forall|i: int|
        #![trigger addresses[i]]
        0 <= i < addresses.len() ==> semantics::is_fresh(vms[i].heap, addresses[i]) && vms[i + 1] == semantics::place(
            vms[i],
            addresses[i],
            types[i],
            values[i],
        ).0
}

proof fn lemma_places_remain(vms: Seq<VMView>, addresses: Seq<Option<u32>>, types: Seq<Seq<char>>, values: Seq<ValueView>, i: int, j: int)
    requires
        each_places(vms, addresses, types, values),
        0 <= i < j <= addresses.len(),
        addresses[i] is Some,
    ensures
        vms[j].heap.contains_key(addresses[i]->0),
    decreases j - i,
{
    assert(vms[i + 1] == semantics::place(vms[i], addresses[i], types[i], values[i]).0);
    if j > i + 1 {
        lemma_places_remain(vms, addresses, types, values, i, j - 1);
        assert(vms[j - 1 + 1] == semantics::place(vms[j - 1], addresses[j - 1], types[j - 1], values[j - 1]).0);
    }
}

/// Objects that are put on the heap of one machine one after the other have
/// pairwise different addresses.
pub proof fn law_addresses_differ(vms: Seq<VMView>, addresses: Seq<Option<u32>>, types: Seq<Seq<char>>, values: Seq<ValueView>, i: int, j: int)
    requires
        each_places(vms, addresses, types, values),
        0 <= i < j < addresses.len(),
        addresses[i] is Some,
        addresses[j] is Some,
    ensures
        addresses[i] != addresses[j],
{
    lemma_places_remain(vms, addresses, types, values, i, j);
    assert(semantics::is_fresh(vms[j].heap, addresses[j]));
}

/// How many answers the first `k` allocations took.
pub open spec fn taken(words: Seq<Seq<Option<u32>>>, k: int) -> int
    decreases k,
{
    if k <= 0 {
        0
    } else {
        taken(words, k - 1) + words[k - 1].len()
    }
}

/// The answers are taken from `stream` one behind the other, and each address is
/// what allocation gives for its part of them.
pub open spec fn each_allocates(vms: Seq<VMView>, addresses: Seq<Option<u32>>, words: Seq<Seq<Option<u32>>>, stream: spec_fn(int) -> Option<u32>) -> bool {
    &&& words.len() == addresses.len()
    &&& forall|i: int|
        #![trigger words[i]]
        0 <= i < words.len() ==> {
            &&& machine::allocated(vms[i].heap, words[i], addresses[i])
            &&& forall|j: int| 0 <= j < words[i].len() ==> #[trigger] words[i][j] == stream(taken(words, i) + j)
        }
}

/// Two machines with the same addresses in use, such as two new ones, that put
/// objects on their heaps one after the other get the same addresses, call by
/// call, where their generators give the same numbers; whatever the objects are.
pub proof fn law_same_numbers_same_addresses(
    stream: spec_fn(int) -> Option<u32>,
    a: Seq<VMView>,
    b: Seq<VMView>,
    x: Seq<Option<u32>>,
    y: Seq<Option<u32>>,
    words: Seq<Seq<Option<u32>>>,
    others: Seq<Seq<Option<u32>>>,
    types: Seq<Seq<char>>,
    values: Seq<ValueView>,
    other_types: Seq<Seq<char>>,
    other_values: Seq<ValueView>,
    k: int,
)
    requires
        each_places(a, x, types, values),
        each_places(b, y, other_types, other_values),
        each_allocates(a, x, words, stream),
        each_allocates(b, y, others, stream),
        a[0].heap.dom() == b[0].heap.dom(),
        0 <= k <= x.len(),
        k <= y.len(),
    ensures
        forall|i: int| 0 <= i < k ==> #[trigger] x[i] == y[i],
        taken(words, k) == taken(others, k),
        a[k].heap.dom() == b[k].heap.dom(),
    decreases k,
{
    if k > 0 {
        let i = k - 1;
        law_same_numbers_same_addresses(
            stream,
            a,
            b,
            x,
            y,
            words,
            others,
            types,
            values,
            other_types,
            other_values,
            i,
        );
        assert(machine::allocated(a[i].heap, words[i], x[i]));
        assert(machine::allocated(b[i].heap, others[i], y[i]));
        assert forall|j: int| 0 <= j < words[i].len() && j < others[i].len() implies #[trigger] words[i][j] == others[i][j] by {
            assert(others[i][j] == stream(taken(others, i) + j));
        }
        law_same_numbers_same_address(a[i].heap, b[i].heap, words[i], others[i], x[i], y[i]);
        assert(a[i + 1] == semantics::place(a[i], x[i], types[i], values[i]).0);
        assert(b[i + 1] == semantics::place(b[i], y[i], other_types[i], other_values[i]).0);
        assert(a[k].heap.dom() =~= b[k].heap.dom());
    }
}

/// An item of an array that was set reads as the low byte of what was stored.
pub proof fn law_array_reads_back(vm: VMView, src: usize, dst: usize, array: usize, index: usize, n: i32, i: i32, ty: Seq<char>, address: u32, data: Seq<u8>)
    requires
        vm.register(array as int) == Some(RegisterView::Reference(ty, address)),
        vm.value(address) == Some(ValueView::Array(data)),
        vm.register(index as int) == Some(RegisterView::Literal(i)),
        vm.register(src as int) == Some(RegisterView::Literal(n)),
        0 <= i < data.len(),
    ensures
        semantics::array_put(vm, src, array, index) is Next,
        ({
            let after = semantics::array_put(vm, src, array, index)->Next_0;
            semantics::array_get(after, dst, array, index) == semantics::put(after, dst, RegisterView::Literal((n as u8) as i32))
        }),
{
}

/// A new array has the length that was asked for, and reads as zeros.
pub proof fn law_new_array_is_zero(vm: VMView, dst: usize, size: usize, class: u16, n: i32, address: u32, index: usize, i: i32)
    requires
        vm.register(size as int) == Some(RegisterView::Literal(n)),
        0 <= n <= semantics::MAX_SIZE,
        dst < vm.current.registers.len(),
    ensures
        semantics::new_array(vm, dst, size, class, Some(address)) is Next,
        ({
            let after = semantics::new_array(vm, dst, size, class, Some(address))->Next_0;
            &&& semantics::array_length(after, size, dst) == semantics::put(after, size, RegisterView::Literal(n))
            &&& after.register(index as int) == Some(RegisterView::Literal(i)) && 0 <= i < n ==> semantics::array_get(
                after,
                size,
                dst,
                index,
            ) == semantics::put(after, size, RegisterView::Literal(0))
        }),
{
}

/// An array that was filled holds the bytes that stand in the method.
pub proof fn law_filled_array_holds_data(vm: VMView, code: CodeItem, array: usize, table: i32, ty: Seq<char>, address: u32, width: u16, data: Vec<u8>)
    requires
        vm.register(array as int) == Some(RegisterView::Reference(ty, address)),
        vm.heap.contains_key(address),
        semantics::instruction_at(code, vm.current.pc.wrapping_add_signed(table)) == Some(Instruction::ArrayData(width, data)),
    ensures
        semantics::fill_array(vm, code, array, table) is Next,
        semantics::fill_array(vm, code, array, table)->Next_0.referred(array as int) == Some(ValueView::Array(data@)),
{
}

/// A type of the dex file has the name of its class.
pub open spec fn names_agree(dex: DexFile, type_idx: u16) -> bool {
    search::first(dex.classes@, models::class_of_type(type_idx as u32)) matches Some(class) ==> dex.type_name_at(type_idx as int)
        == Some(class.class_name@)
}

/// A static field that was set reads as the object that was stored.
pub proof fn law_static_reads_back(m: MachineView, after: VMView, src: u8, dst: usize, field: u16, ty: Seq<char>, address: u32, choice: Choice)
    requires
        semantics::static_put(m.vm, *m.dex, src, field) == Effect::Next(after),
        m.vm.register(src as int) == Some(RegisterView::Reference(ty, address)),
        m.vm.heap[address] is Object || m.vm.heap[address] is Array,
        names_agree(*m.dex, m.dex.fields@[field as int].class_idx),
    ensures
        ({
            let running = if after.current.state == ExecutionState::RunningStaticInitializer {
                after.in_state(ExecutionState::Running)
            } else {
                after
            };
            let found = match m.vm.heap[address] {
                ValueView::Object(instance) => instance.class.class_name@,
                _ => semantics::byte_array(),
            };
            semantics::static_get(m.with_vm(after), dst, field, choice) == semantics::proceed(
                m,
                semantics::put(running, dst, RegisterView::Reference(found, address)),
            )
        }),
{
    assert(after.value(address) == m.vm.value(address));
    assert forall|effect: Effect| semantics::proceed(m.with_vm(after), effect) == #[trigger] semantics::proceed(m, effect) by {}
}

/// An integer field that was set reads as what was stored. Left out are an
/// object that refers to itself through that field, which the integer takes the
/// place of, and a field whose cell is not on the heap.
pub proof fn law_field_reads_back(
    vm: VMView,
    dex: DexFile,
    src: usize,
    dst: usize,
    object: usize,
    field: u16,
    address: Option<u32>,
    name: Seq<char>,
    n: i32,
    ty: Seq<char>,
    owner: u32,
    instance: InstanceView,
)
    requires
        semantics::field_name(dex, field) == Ok::<Seq<char>, ExceptionView>(name),
        vm.register(src as int) == Some(RegisterView::Literal(n)),
        vm.register(object as int) == Some(RegisterView::Reference(ty, owner)),
        vm.value(owner) == Some(ValueView::Object(instance)),
        if instance.instances.contains_key(name) {
            instance.instances[name] != owner && vm.heap.contains_key(instance.instances[name])
        } else {
            address is Some && semantics::is_fresh(vm.heap, address)
        },
    ensures
        semantics::instance_put(vm, dex, src, object, field, address) is Next,
        ({
            let after = semantics::instance_put(vm, dex, src, object, field, address)->Next_0;
            semantics::instance_get(after, dex, dst, object, field) == semantics::put(after, dst, RegisterView::Literal(n))
        }),
{
}

/// A field that was made to refer to an object reads as a reference to it.
pub proof fn law_object_field_reads_back(
    vm: VMView,
    dex: DexFile,
    src: usize,
    dst: usize,
    object: usize,
    field: u16,
    name: Seq<char>,
    stored: Seq<char>,
    address: u32,
    ty: Seq<char>,
    owner: u32,
    instance: InstanceView,
)
    requires
        semantics::field_name(dex, field) == Ok::<Seq<char>, ExceptionView>(name),
        vm.register(src as int) == Some(RegisterView::Reference(stored, address)),
        vm.register(object as int) == Some(RegisterView::Reference(ty, owner)),
        vm.value(owner) == Some(ValueView::Object(instance)),
    ensures
        semantics::instance_put_object(vm, dex, src, object, field) is Next,
        ({
            let after = semantics::instance_put_object(vm, dex, src, object, field)->Next_0;
            semantics::instance_get_object(after, dex, dst, object, field) == semantics::put(
                after,
                dst,
                RegisterView::Reference(instance.class.class_name@, address),
            )
        }),
{
}

/// A constant string shows the text of the string table.
pub proof fn law_const_string_text(vm: VMView, dst: usize, string: u32, address: u32, text: Seq<char>)
    requires
        runtime::builtins_complete(vm.builtins),
        vm.current.dex.string_at(string as int) == Some(text),
        dst < vm.current.registers.len(),
    ensures
        semantics::const_string(vm, dst, string, Some(address)) is Next,
        ({
            let after = semantics::const_string(vm, dst, string, Some(address))->Next_0;
            after.referred(dst as int) is Some && after.referred(dst as int)->0.text() == Some(text)
        }),
{
}

} // verus!
