//! The parts of the `wasmtime` crate that a component's execution goes through.
//!
//! What compiling, instantiating and calling give depends on the machine, the
//! epoch and the host functions, so none of it is a function of the arguments.
//! Each such call has a relation instead, which holds of its arguments and of
//! whatever it gave. Beside that it is stated how engines, linkers, stores and
//! instances belong together and how they are set up. The flag by which one
//! thread tells another to stop is here too: what a load of it gives depends on
//! the other thread.

use std::sync::atomic::{AtomicBool, Ordering};
use std::sync::Arc;

use vstd::prelude::*;

use crate::codemode::runner::{CapabilityInvoke, DEFAULT_EPOCH_DEADLINE};

verus! {

/// The engine settings of the `wasmtime` crate.
#[verifier::external_type_specification]
#[verifier::external_body]
pub struct ExConfig(wasmtime::Config);

/// A handle to an engine of the `wasmtime` crate. Equal handles are handles to
/// one engine.
#[verifier::external_type_specification]
#[verifier::external_body]
pub struct ExEngine(wasmtime::Engine);

/// The store of the `wasmtime` crate, in which instances live.
#[verifier::external_type_specification]
#[verifier::external_body]
#[verifier::reject_recursive_types(T)]
pub struct ExStore<T: 'static>(wasmtime::Store<T>);

/// The linker of the `wasmtime` crate, which holds host functions by name.
#[verifier::external_type_specification]
#[verifier::external_body]
#[verifier::reject_recursive_types(T)]
pub struct ExLinker<T: 'static>(wasmtime::component::Linker<T>);

/// A compiled component of the `wasmtime` crate.
#[verifier::external_type_specification]
#[verifier::external_body]
pub struct ExComponent(wasmtime::component::Component);

/// An instantiated component of the `wasmtime` crate.
#[verifier::external_type_specification]
#[verifier::external_body]
pub struct ExInstance(wasmtime::component::Instance);

/// An exported function of the `wasmtime` crate whose signature was checked.
#[verifier::external_type_specification]
#[verifier::external_body]
#[verifier::reject_recursive_types(Params)]
#[verifier::reject_recursive_types(Return)]
pub struct ExTypedFunc<Params, Return>(wasmtime::component::TypedFunc<Params, Return>);

/// Whether settings take components, as `Config::wasm_component_model` set it.
pub uninterp spec fn takes_components(config: wasmtime::Config) -> bool;

/// Whether settings meter fuel, as `Config::consume_fuel` set it.
pub uninterp spec fn meters_fuel(config: wasmtime::Config) -> bool;

/// Whether settings check epochs, as `Config::epoch_interruption` set it.
pub uninterp spec fn checks_epochs(config: wasmtime::Config) -> bool;

/// The settings of an engine, as `Engine::config` gives them.
pub uninterp spec fn engine_config(engine: wasmtime::Engine) -> wasmtime::Config;

/// The engine of a component, as `Component::engine` gives it.
pub uninterp spec fn component_engine(component: wasmtime::component::Component) -> wasmtime::Engine;

/// The engine of a linker, as `Linker::engine` gives it.
pub uninterp spec fn linker_engine(linker: wasmtime::component::Linker<()>) -> wasmtime::Engine;

/// The host functions of a linker that give a fixed text, by name.
pub uninterp spec fn linked_texts(linker: wasmtime::component::Linker<()>) -> Map<
    Seq<char>,
    Seq<char>,
>;

/// The names of the host functions of a linker that go to a handler.
pub uninterp spec fn linked_handlers(linker: wasmtime::component::Linker<()>) -> Set<Seq<char>>;

/// Whether the host function of a linker under this name goes to this handler.
pub uninterp spec fn goes_to(
    linker: wasmtime::component::Linker<()>,
    name: Seq<char>,
    handler: &Arc<dyn CapabilityInvoke>,
) -> bool;

/// The engine of a store, as `Store::engine` gives it.
pub uninterp spec fn store_engine(store: wasmtime::Store<()>) -> wasmtime::Engine;

/// The fuel in a store, as `Store::get_fuel` gives it.
pub uninterp spec fn store_fuel(store: wasmtime::Store<()>) -> u64;

/// The epoch ticks that `Store::set_epoch_deadline` last gave a store.
pub uninterp spec fn store_deadline(store: wasmtime::Store<()>) -> u64;

/// Whether a store owns an instance.
pub uninterp spec fn owns_instance(
    store: wasmtime::Store<()>,
    instance: wasmtime::component::Instance,
) -> bool;

/// Whether a store owns an exported function that gives a string.
pub uninterp spec fn owns_string_func(
    store: wasmtime::Store<()>,
    func: wasmtime::component::TypedFunc<(), (String,)>,
) -> bool;

/// Whether a store owns an exported function that gives nothing.
pub uninterp spec fn owns_unit_func(
    store: wasmtime::Store<()>,
    func: wasmtime::component::TypedFunc<(), ()>,
) -> bool;

/// The value that `AtomicBool::new` made a flag with.
pub uninterp spec fn flag_start(flag: AtomicBool) -> bool;

/// Whether a load of a flag gave this value while a store was as it is here.
pub uninterp spec fn flag_read(
    flag: AtomicBool,
    store: wasmtime::Store<()>,
    value: bool,
) -> bool;

/// Whether `Engine::new` with these settings gave this: an engine, or what it
/// said.
pub uninterp spec fn engine_made(
    config: wasmtime::Config,
    r: Result<wasmtime::Engine, Seq<char>>,
) -> bool;

/// Whether `Component::new` with this engine and these bytes gave this: a
/// component, or what it said.
pub uninterp spec fn compiled_to(
    engine: wasmtime::Engine,
    bytes: Seq<u8>,
    r: Result<wasmtime::component::Component, Seq<char>>,
) -> bool;

/// Whether `LinkerInstance::func_wrap` of a fixed text under this name gave
/// this: nothing, or what it said.
pub uninterp spec fn text_linked(
    linker: wasmtime::component::Linker<()>,
    name: Seq<char>,
    text: Seq<char>,
    r: Result<(), Seq<char>>,
) -> bool;

/// Whether `LinkerInstance::func_wrap` of a handler under this name gave this:
/// nothing, or what it said.
pub uninterp spec fn handler_linked(
    linker: wasmtime::component::Linker<()>,
    name: Seq<char>,
    handler: &Arc<dyn CapabilityInvoke>,
    r: Result<(), Seq<char>>,
) -> bool;

/// Whether `Linker::instantiate` of this component in this store gave this: the
/// store as it then was, and an instance or what was said.
pub uninterp spec fn instantiated(
    linker: wasmtime::component::Linker<()>,
    component: wasmtime::component::Component,
    before: wasmtime::Store<()>,
    after: wasmtime::Store<()>,
    r: Result<wasmtime::component::Instance, Seq<char>>,
) -> bool;

/// Whether `Instance::get_typed_func` for a function that gives a string gave
/// this: the store as it then was, and the function or what was said.
pub uninterp spec fn string_export(
    instance: wasmtime::component::Instance,
    name: Seq<char>,
    before: wasmtime::Store<()>,
    after: wasmtime::Store<()>,
    r: Result<wasmtime::component::TypedFunc<(), (String,)>, Seq<char>>,
) -> bool;

/// Whether `Instance::get_typed_func` for a function that gives nothing gave
/// this: the store as it then was, and the function or what was said.
pub uninterp spec fn unit_export(
    instance: wasmtime::component::Instance,
    name: Seq<char>,
    before: wasmtime::Store<()>,
    after: wasmtime::Store<()>,
    r: Result<wasmtime::component::TypedFunc<(), ()>, Seq<char>>,
) -> bool;

/// Whether `TypedFunc::call` in this store gave this: a text, or how it trapped.
pub uninterp spec fn string_called(
    func: wasmtime::component::TypedFunc<(), (String,)>,
    store: wasmtime::Store<()>,
    r: Result<Seq<char>, Seq<char>>,
) -> bool;

/// Whether `TypedFunc::call` in this store gave this: a return, or how it
/// trapped.
pub uninterp spec fn unit_called(
    func: wasmtime::component::TypedFunc<(), ()>,
    store: wasmtime::Store<()>,
    r: Result<(), Seq<char>>,
) -> bool;

/// What a call gave, with what it said as a sequence.
pub open spec fn said<T>(r: Result<T, String>) -> Result<T, Seq<char>> {
    match r {
        Ok(value) => Ok(value),
        Err(message) => Err(message@),
    }
}

/// `Config::new`: the default settings. Nothing is stated of them.
#[verifier::external_body]
pub(crate) fn new_config() -> (r: wasmtime::Config) {
    wasmtime::Config::new()
}

/// `Config::wasm_component_model`: sets whether components are taken, and
/// nothing else.
#[verifier::external_body]
pub(crate) fn take_components(config: &mut wasmtime::Config, enable: bool)
    ensures
        takes_components(*final(config)) == enable,
        meters_fuel(*final(config)) == meters_fuel(*old(config)),
        checks_epochs(*final(config)) == checks_epochs(*old(config)),
{
    config.wasm_component_model(enable);
}

/// `Config::consume_fuel`: sets whether fuel is metered, and nothing else.
#[verifier::external_body]
pub(crate) fn meter_fuel(config: &mut wasmtime::Config, enable: bool)
    ensures
        meters_fuel(*final(config)) == enable,
        takes_components(*final(config)) == takes_components(*old(config)),
        checks_epochs(*final(config)) == checks_epochs(*old(config)),
{
    config.consume_fuel(enable);
}

/// `Config::epoch_interruption`: sets whether epochs are checked, and nothing
/// else.
#[verifier::external_body]
pub(crate) fn check_epochs(config: &mut wasmtime::Config, enable: bool)
    ensures
        checks_epochs(*final(config)) == enable,
        takes_components(*final(config)) == takes_components(*old(config)),
        meters_fuel(*final(config)) == meters_fuel(*old(config)),
{
    config.epoch_interruption(enable);
}

/// `Engine::new`: an engine with these settings, or why there is none.
#[verifier::external_body]
pub(crate) fn new_engine(config: &wasmtime::Config) -> (r: Result<wasmtime::Engine, String>)
    ensures
        r matches Ok(engine) ==> {
            &&& takes_components(engine_config(engine)) == takes_components(*config)
            &&& meters_fuel(engine_config(engine)) == meters_fuel(*config)
            &&& checks_epochs(engine_config(engine)) == checks_epochs(*config)
        },
        engine_made(*config, said(r)),
{
    wasmtime::Engine::new(config).map_err(|e| e.to_string())
}

/// `Engine::clone`: another handle to the same engine.
pub assume_specification[ <wasmtime::Engine as Clone>::clone ](engine: &wasmtime::Engine) -> (r:
    wasmtime::Engine)
    ensures
        r == *engine,
;

/// `Engine::same`: whether two handles are handles to one engine.
#[verifier::external_body]
pub(crate) fn same_engine(a: &wasmtime::Engine, b: &wasmtime::Engine) -> (r: bool)
    ensures
        r == (*a == *b),
{
    wasmtime::Engine::same(a, b)
}

/// `Engine::increment_epoch`: lets the epoch of the engine's stores go on by
/// one. It has no effect that a caller reads.
#[verifier::external_body]
pub(crate) fn advance_epoch(engine: &wasmtime::Engine) {
    engine.increment_epoch()
}

/// `Component::new`: the bytes compiled by the engine, or why they are not.
#[verifier::external_body]
pub(crate) fn compile(engine: &wasmtime::Engine, bytes: &[u8]) -> (r: Result<
    wasmtime::component::Component,
    String,
>)
    ensures
        r matches Ok(component) ==> component_engine(component) == *engine,
        compiled_to(*engine, bytes@, said(r)),
{
    wasmtime::component::Component::new(engine, bytes).map_err(|e| e.to_string())
}

/// `Linker::new`: a linker of the engine that holds nothing.
#[verifier::external_body]
pub(crate) fn new_linker(engine: &wasmtime::Engine) -> (r: wasmtime::component::Linker<()>)
    ensures
        linker_engine(r) == *engine,
        (linked_texts(r) == Map::<Seq<char>, Seq<char>>::empty()),
        linked_handlers(r) == Set::<Seq<char>>::empty(),
{
    wasmtime::component::Linker::new(engine)
}

/// `LinkerInstance::func_wrap` on the root of a linker, with a host function
/// that gives a fixed text.
#[verifier::external_body]
pub(crate) fn link_text(
    linker: &mut wasmtime::component::Linker<()>,
    name: &str,
    text: String,
) -> (r: Result<(), String>)
    ensures
        linker_engine(*final(linker)) == linker_engine(*old(linker)),
        linked_handlers(*final(linker)) == linked_handlers(*old(linker)),
        r is Ok ==> linked_texts(*final(linker)) == linked_texts(*old(linker)).insert(
            name@,
            text@,
        ),
        text_linked(*old(linker), name@, text@, said(r)),
{
    linker.root().func_wrap(
        name,
        move |_: wasmtime::StoreContextMut<'_, ()>, (): ()| Ok((text.clone(),)),
    ).map_err(|e| e.to_string())
}

/// `LinkerInstance::func_wrap` on the root of a linker, with a host function
/// that hands its two texts to a handler; what the handler refuses traps.
#[verifier::external_body]
pub(crate) fn link_handler(
    linker: &mut wasmtime::component::Linker<()>,
    name: &str,
    handler: &Arc<dyn CapabilityInvoke>,
) -> (r: Result<(), String>)
    ensures
        linker_engine(*final(linker)) == linker_engine(*old(linker)),
        linked_texts(*final(linker)) == linked_texts(*old(linker)),
        r is Ok ==> linked_handlers(*final(linker)) == linked_handlers(*old(linker)).insert(name@),
        r is Ok ==> goes_to(*final(linker), name@, handler),
        handler_linked(*old(linker), name@, handler, said(r)),
{
    let handler = handler.clone();
    linker.root().func_wrap(
        name,
        move |_: wasmtime::StoreContextMut<'_, ()>, (tool, params): (String, String)|
            handler.invoke(&tool, &params).map(|text| (text,)).map_err(wasmtime::Error::msg),
    ).map_err(|e| e.to_string())
}

/// `Store::new`: an empty store of the engine.
#[verifier::external_body]
pub(crate) fn new_store(engine: &wasmtime::Engine) -> (r: wasmtime::Store<()>)
    ensures
        store_engine(r) == *engine,
{
    wasmtime::Store::new(engine, ())
}

/// `Store::set_fuel`: fills the store with fuel; fails where the engine does
/// not meter it.
#[verifier::external_body]
pub(crate) fn set_fuel(store: &mut wasmtime::Store<()>, fuel: u64) -> (r: Result<(), String>)
    ensures
        store_engine(*final(store)) == store_engine(*old(store)),
        store_deadline(*final(store)) == store_deadline(*old(store)),
        r is Ok <==> meters_fuel(engine_config(store_engine(*old(store)))),
        r is Ok ==> store_fuel(*final(store)) == fuel,
{
    store.set_fuel(fuel).map_err(|e| e.to_string())
}

/// `Store::set_epoch_deadline`: lets the store run for so many epoch ticks from
/// now on. It adds the ticks to the engine's epoch, so large numbers, whose sum
/// with it could overflow, are left out.
#[verifier::external_body]
pub(crate) fn set_deadline(store: &mut wasmtime::Store<()>, ticks: u64)
    requires
        ticks <= DEFAULT_EPOCH_DEADLINE,
    ensures
        store_engine(*final(store)) == store_engine(*old(store)),
        store_fuel(*final(store)) == store_fuel(*old(store)),
        store_deadline(*final(store)) == ticks,
{
    store.set_epoch_deadline(ticks)
}

/// `Store::epoch_deadline_trap`: lets a store trap when its deadline is reached.
#[verifier::external_body]
pub(crate) fn trap_at_deadline(store: &mut wasmtime::Store<()>)
    ensures
        store_engine(*final(store)) == store_engine(*old(store)),
        store_fuel(*final(store)) == store_fuel(*old(store)),
        store_deadline(*final(store)) == store_deadline(*old(store)),
{
    store.epoch_deadline_trap()
}

/// `Linker::instantiate`: an instance of the component in the store with the
/// host functions of the linker, or why there is none. All three are of one
/// engine.
#[verifier::external_body]
pub(crate) fn instantiate(
    linker: &wasmtime::component::Linker<()>,
    store: &mut wasmtime::Store<()>,
    component: &wasmtime::component::Component,
) -> (r: Result<wasmtime::component::Instance, String>)
    requires
        linker_engine(*linker) == component_engine(*component),
        linker_engine(*linker) == store_engine(*old(store)),
    ensures
        r matches Ok(instance) ==> owns_instance(*final(store), instance),
        instantiated(*linker, *component, *old(store), *final(store), said(r)),
{
    linker.instantiate(store, component).map_err(|e| e.to_string())
}

/// `Instance::get_typed_func` for a function that takes nothing and gives a
/// string: the export of that name, or why it is not callable so.
#[verifier::external_body]
pub(crate) fn string_entrypoint(
    instance: &wasmtime::component::Instance,
    store: &mut wasmtime::Store<()>,
    name: &str,
) -> (r: Result<wasmtime::component::TypedFunc<(), (String,)>, String>)
    requires
        owns_instance(*old(store), *instance),
    ensures
        owns_instance(*final(store), *instance),
        r matches Ok(func) ==> owns_string_func(*final(store), func),
        string_export(*instance, name@, *old(store), *final(store), said(r)),
{
    instance.get_typed_func::<(), (String,)>(store, name).map_err(|e| e.to_string())
}

/// `Instance::get_typed_func` for a function that takes and gives nothing: the
/// export of that name, or why it is not callable so.
#[verifier::external_body]
pub(crate) fn unit_entrypoint(
    instance: &wasmtime::component::Instance,
    store: &mut wasmtime::Store<()>,
    name: &str,
) -> (r: Result<wasmtime::component::TypedFunc<(), ()>, String>)
    requires
        owns_instance(*old(store), *instance),
    ensures
        owns_instance(*final(store), *instance),
        r matches Ok(func) ==> owns_unit_func(*final(store), func),
        unit_export(*instance, name@, *old(store), *final(store), said(r)),
{
    instance.get_typed_func::<(), ()>(store, name).map_err(|e| e.to_string())
}

/// `TypedFunc::call` of a function that gives a string: what it gave, or how it
/// trapped.
#[verifier::external_body]
pub(crate) fn call_for_string(
    func: &wasmtime::component::TypedFunc<(), (String,)>,
    store: &mut wasmtime::Store<()>,
) -> (r: Result<String, String>)
    requires
        owns_string_func(*old(store), *func),
    ensures
        string_called(
            *func,
            *old(store),
            match r {
                Ok(text) => Ok(text@),
                Err(message) => Err(message@),
            },
        ),
{
    func.call(store, ()).map(|(text,)| text).map_err(|e| e.to_string())
}

/// `TypedFunc::call` of a function that gives nothing: that it returned, or how
/// it trapped.
#[verifier::external_body]
pub(crate) fn call_for_nothing(
    func: &wasmtime::component::TypedFunc<(), ()>,
    store: &mut wasmtime::Store<()>,
) -> (r: Result<(), String>)
    requires
        owns_unit_func(*old(store), *func),
    ensures
        unit_called(*func, *old(store), said(r)),
{
    func.call(store, ()).map_err(|e| e.to_string())
}

/// `AtomicBool::new`: a flag that starts with this value.
#[verifier::external_body]
pub(crate) fn new_flag(value: bool) -> (r: AtomicBool)
    ensures
        flag_start(r) == value,
{
    AtomicBool::new(value)
}

/// `AtomicBool::load`: the value of a flag at this moment, with all that was
/// stored before it. Which value that is, with other threads storing in the flag,
/// is not stated. The store has no part in the load; it is named so that a
/// contract can say in which state it was when the flag was read.
#[verifier::external_body]
pub(crate) fn read_flag(flag: &AtomicBool, _store: &wasmtime::Store<()>) -> (r: bool)
    ensures
        flag_read(*flag, *_store, r),
{
    flag.load(Ordering::Acquire)
}

} // verus!
