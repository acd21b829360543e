use vstd::prelude::*;

verus! {

#[verifier::external_type_specification]
#[verifier::external_body]
pub struct ExInstance(wasmer::Instance);

#[verifier::external_type_specification]
#[verifier::external_body]
pub struct ExStore(wasmer::Store);

#[verifier::external_type_specification]
#[verifier::external_body]
pub struct ExInstantiationError(wasmer::InstantiationError);

/// A module of the comments suite, compiled and ready to be started, with the store that
/// its instance lives in.
pub struct ResultObject {
    pub store: wasmer::Store,
    pub module: wasmer::Module,
}

/// Relies on `wasmer::Instance::new`: instantiates `module` in `store` with no imports, which
/// runs the module's start function where it has one.
#[verifier::external_body]
fn instantiate(store: &mut wasmer::Store, module: &wasmer::Module) -> (r: Result<
    wasmer::Instance,
    wasmer::InstantiationError,
>) {
    wasmer::Instance::new(store, module, &wasmer::Imports::new())
}

/// Starts the first module: instantiating it runs its start function.
pub fn start_module_1(result_object: &mut ResultObject) -> (r: Result<
    wasmer::Instance,
    wasmer::InstantiationError,
>) {
    instantiate(&mut result_object.store, &result_object.module)
}

/// Starts the second module: instantiating it runs its start function.
pub fn start_module_2(result_object: &mut ResultObject) -> (r: Result<
    wasmer::Instance,
    wasmer::InstantiationError,
>) {
    instantiate(&mut result_object.store, &result_object.module)
}

/// Starts the third module: instantiating it runs its start function.
pub fn start_module_3(result_object: &mut ResultObject) -> (r: Result<
    wasmer::Instance,
    wasmer::InstantiationError,
>) {
    instantiate(&mut result_object.store, &result_object.module)
}

/// Starts the fourth module: instantiating it runs its start function.
pub fn start_module_4(result_object: &mut ResultObject) -> (r: Result<
    wasmer::Instance,
    wasmer::InstantiationError,
>) {
    instantiate(&mut result_object.store, &result_object.module)
}

} // verus!
