use module_lifecycle::descriptor::{License, ModuleDescriptor, RegistrationError};

fn descriptor(name: &str, license: License) -> ModuleDescriptor {
    ModuleDescriptor::new(name, "d0u9", license, "A simple hello world example").unwrap()
}

#[test]
fn descriptor_keeps_what_it_was_given() {
    let d = ModuleDescriptor::new(
        "hello_world",
        "Douglas Su",
        License::GplCompatible,
        "A simple hello world example",
    )
    .unwrap();
    assert_eq!(d.name(), "hello_world");
    assert_eq!(d.author(), "Douglas Su");
    assert_eq!(d.license(), License::GplCompatible);
    assert_eq!(d.description(), "A simple hello world example");
}

#[test]
fn descriptor_needs_a_name() {
    assert!(ModuleDescriptor::new("", "d0u9", License::GplCompatible, "nameless").is_none());
    assert!(ModuleDescriptor::new("x", "", License::Unknown, "").is_some());
}

#[test]
fn recognized_licenses() {
    assert!(License::GplCompatible.is_recognized());
    assert!(License::Proprietary.is_recognized());
    assert!(!License::Unknown.is_recognized());
}

#[test]
fn validate_accepts_a_recognized_license() {
    assert_eq!(descriptor("hello_world", License::GplCompatible).validate(), Ok(()));
    assert_eq!(descriptor("blob", License::Proprietary).validate(), Ok(()));
}

#[test]
fn validate_refuses_an_unknown_license() {
    assert_eq!(
        descriptor("hello_world", License::Unknown).validate(),
        Err(RegistrationError::UnknownLicense)
    );
}

#[test]
fn validate_among_accepts_a_free_name() {
    let registered = vec![String::from("scull_basic"), String::from("hello")];
    assert_eq!(descriptor("hello_world", License::GplCompatible).validate_among(&registered), Ok(()));
    assert_eq!(descriptor("hello_world", License::Proprietary).validate_among(&Vec::new()), Ok(()));
}

#[test]
fn validate_among_refuses_a_name_in_use() {
    let registered = vec![String::from("scull_basic"), String::from("hello_world")];
    assert_eq!(
        descriptor("hello_world", License::GplCompatible).validate_among(&registered),
        Err(RegistrationError::DuplicateName)
    );
    assert_eq!(
        descriptor("scull_basic", License::Proprietary).validate_among(&registered),
        Err(RegistrationError::DuplicateName)
    );
}

#[test]
fn validate_among_judges_the_license_first() {
    let registered = vec![String::from("hello_world")];
    assert_eq!(
        descriptor("hello_world", License::Unknown).validate_among(&registered),
        Err(RegistrationError::UnknownLicense)
    );
    assert_eq!(
        descriptor("other", License::Unknown).validate_among(&registered),
        Err(RegistrationError::UnknownLicense)
    );
}

#[test]
fn registration_messages_name_the_constraint() {
    assert_eq!(
        RegistrationError::UnknownLicense.message(),
        "registration refused: unknown license"
    );
    assert_eq!(
        RegistrationError::DuplicateName.message(),
        "registration refused: name is already in use"
    );
    assert_ne!(
        RegistrationError::UnknownLicense.message(),
        RegistrationError::DuplicateName.message()
    );
}
