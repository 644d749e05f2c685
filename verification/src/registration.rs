//! Registration: the step that turns a descriptor and a parameter store into
//! the handle that a loaded unit is known by.

use crate::descriptor::{names_of, validation_among, ModuleDescriptor, RegistrationError};
use crate::lifecycle::Unit;
use crate::shared::SharedParameterStore;
use crate::store::{store_of, with_defaults, ParameterStore};
use vstd::prelude::*;

verus! {

/// The handle of a registered unit. It keeps the unit's descriptor and its
/// parameter store, the store behind its lock.
pub struct Registration {
    descriptor: ModuleDescriptor,
    parameters: SharedParameterStore,
}

impl Registration {
    /// The descriptor that the unit was registered with.
    pub closed spec fn spec_descriptor(&self) -> &ModuleDescriptor {
        &self.descriptor
    }

    /// The unit's parameter store.
    pub closed spec fn spec_parameters(&self) -> &SharedParameterStore {
        &self.parameters
    }

    /// The descriptor that the unit was registered with.
    #[verifier::when_used_as_spec(spec_descriptor)]
    pub fn descriptor(&self) -> (r: &ModuleDescriptor)
        ensures
            r == self.spec_descriptor(),
    {
        &self.descriptor
    }

    /// The unit's parameter store.
    #[verifier::when_used_as_spec(spec_parameters)]
    pub fn parameters(&self) -> (r: &SharedParameterStore)
        ensures
            r == self.spec_parameters(),
    {
        &self.parameters
    }
}

/// Registers a unit in a host where the units named `registered` are loaded
/// already. The unit is refused with `UnknownLicense` where the host does
/// not know its license, else with `DuplicateName` where its name is in
/// use. Where it is accepted, the handle keeps the descriptor as it was
/// given and the store, as it was given, behind a lock.
pub fn register(
    descriptor: ModuleDescriptor,
    parameters: ParameterStore,
    registered: &Vec<String>,
) -> (r: Result<Registration, RegistrationError>)
    ensures
        match r {
            Ok(handle) => {
                &&& validation_among(descriptor@, names_of(registered@)) is Ok
                &&& handle.descriptor()@ == descriptor@
                &&& handle.parameters().admits(parameters@)
            },
            Err(e) => validation_among(descriptor@, names_of(registered@)) == Err::<
                (),
                RegistrationError,
            >(e),
        },
{
    match descriptor.validate_among(registered) {
        Ok(()) => {
            let parameters = SharedParameterStore::new(parameters);
            Ok(Registration { descriptor, parameters })
        },
        Err(e) => Err(e),
    }
}

/// Registers the unit `U` with its own descriptor and its own parameters,
/// in a host where the units named `registered` are loaded already. The
/// unit is refused as [`register`] says. Where it is accepted, its store
/// holds the parameters that it declares, each with its default for a
/// value.
pub fn register_unit<U: Unit>(registered: &Vec<String>) -> (r: Result<
    Registration,
    RegistrationError,
>)
    ensures
        match r {
            Ok(handle) => {
                &&& validation_among(U::descriptor_view(), names_of(registered@)) is Ok
                &&& handle.descriptor()@ == U::descriptor_view()
                &&& handle.parameters().admits(store_of(with_defaults(U::parameter_views())))
            },
            Err(e) => validation_among(U::descriptor_view(), names_of(registered@)) == Err::<
                (),
                RegistrationError,
            >(e),
        },
{
    let parameters = ParameterStore::new(U::parameters()).unwrap();
    register(U::descriptor(), parameters, registered)
}

} // verus!
