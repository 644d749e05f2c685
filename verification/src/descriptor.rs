//! The registration descriptor: what a unit says of itself, and the check
//! that a host makes of it before it loads the unit.

use crate::text::same_text;
use vstd::prelude::*;
use vstd::string::*;

verus! {

/// The license that a unit declares.
#[derive(Clone, Copy, Debug, PartialEq, Eq, Structural)]
pub enum License {
    /// A license compatible with the GPL.
    GplCompatible,
    /// A proprietary license.
    Proprietary,
    /// A license that the host does not know.
    Unknown,
}

impl License {
    /// Whether the host knows the license.
    pub open spec fn recognized(self) -> bool {
        self != License::Unknown
    }

    /// Whether the host knows the license.
    pub fn is_recognized(&self) -> (r: bool)
        ensures
            r == self.recognized(),
    {
        match self {
            License::GplCompatible => true,
            License::Proprietary => true,
            License::Unknown => false,
        }
    }
}

/// Why a unit was not registered. Either one ends the load.
#[derive(Clone, Copy, Debug, PartialEq, Eq, Structural)]
pub enum RegistrationError {
    /// The descriptor declares a license that the host does not know.
    UnknownLicense,
    /// A unit of the same name is registered already.
    DuplicateName,
}

impl RegistrationError {
    /// The text of [`RegistrationError::message`].
    pub open spec fn message_text(self) -> Seq<char> {
        match self {
            RegistrationError::UnknownLicense => "registration refused: unknown license"@,
            RegistrationError::DuplicateName => "registration refused: name is already in use"@,
        }
    }

    /// A line for the operator that says which constraint was broken.
    pub fn message(&self) -> (r: String)
        ensures
            r@ == self.message_text(),
    {
        match self {
            RegistrationError::UnknownLicense => String::from_str(
                "registration refused: unknown license",
            ),
            RegistrationError::DuplicateName => String::from_str(
                "registration refused: name is already in use",
            ),
        }
    }

    /// Different errors have different messages.
    pub proof fn lemma_messages_differ(a: RegistrationError, b: RegistrationError)
        requires
            a != b,
        ensures
            a.message_text() != b.message_text(),
    {
        reveal_strlit("registration refused: unknown license");
        reveal_strlit("registration refused: name is already in use");
        assert(RegistrationError::UnknownLicense.message_text().len() == 37);
        assert(RegistrationError::DuplicateName.message_text().len() == 44);
    }
}

/// A descriptor as the contracts see it.
pub struct DescriptorView {
    pub name: Seq<char>,
    pub author: Seq<char>,
    pub license: License,
    pub description: Seq<char>,
}

impl DescriptorView {
    /// A descriptor names its unit: the name is not empty.
    pub open spec fn valid(self) -> bool {
        self.name.len() > 0
    }
}

/// What validation of a descriptor returns: the license must be one that the
/// host knows.
pub open spec fn validation(descriptor: DescriptorView) -> Result<(), RegistrationError> {
    if descriptor.license.recognized() {
        Ok(())
    } else {
        Err(RegistrationError::UnknownLicense)
    }
}

/// What validation returns in a host where the units named `registered` are
/// loaded already: the license is judged first, then the name.
pub open spec fn validation_among(descriptor: DescriptorView, registered: Seq<Seq<char>>) -> Result<
    (),
    RegistrationError,
> {
    if !descriptor.license.recognized() {
        Err(RegistrationError::UnknownLicense)
    } else if registered.contains(descriptor.name) {
        Err(RegistrationError::DuplicateName)
    } else {
        Ok(())
    }
}

/// The names in a list, as the contracts see them.
pub open spec fn names_of(registered: Seq<String>) -> Seq<Seq<char>> {
    registered.map_values(|name: String| name@)
}

/// A valid descriptor with a license that the host knows is accepted, and so
/// it is in every host where its name is not in use.
pub proof fn lemma_recognized_license_is_accepted(
    descriptor: DescriptorView,
    registered: Seq<Seq<char>>,
)
    requires
        descriptor.valid(),
        descriptor.license.recognized(),
        !registered.contains(descriptor.name),
    ensures
        validation(descriptor) == Ok::<(), RegistrationError>(()),
        validation_among(descriptor, registered) == Ok::<(), RegistrationError>(()),
{
}

/// A descriptor with a license that the host does not know is refused with
/// `UnknownLicense`, whatever else it holds and whatever names are in use.
pub proof fn lemma_unknown_license_is_refused(
    descriptor: DescriptorView,
    registered: Seq<Seq<char>>,
)
    requires
        !descriptor.license.recognized(),
    ensures
        validation(descriptor) == Err::<(), RegistrationError>(RegistrationError::UnknownLicense),
        validation_among(descriptor, registered) == Err::<(), RegistrationError>(
            RegistrationError::UnknownLicense,
        ),
{
}

/// What a unit says of itself: its name, its author, its license and a
/// description. It is made once and never changes. Its name is never empty.
#[derive(Debug)]
pub struct ModuleDescriptor {
    name: String,
    author: String,
    license: License,
    description: String,
}

impl View for ModuleDescriptor {
    type V = DescriptorView;

    closed spec fn view(&self) -> DescriptorView {
        DescriptorView {
            name: self.name@,
            author: self.author@,
            license: self.license,
            description: self.description@,
        }
    }
}

impl ModuleDescriptor {
    #[verifier::type_invariant]
    spec fn named(self) -> bool {
        self@.valid()
    }

    /// The descriptor with these four entries; none where the name is empty.
    pub fn new(name: &str, author: &str, license: License, description: &str) -> (r: Option<
        ModuleDescriptor,
    >)
        ensures
            r is Some <==> name@.len() > 0,
            r matches Some(d) ==> d@ == (DescriptorView {
                name: name@,
                author: author@,
                license,
                description: description@,
            }),
    {
        if name.is_empty() {
            None
        } else {
            Some(
                ModuleDescriptor {
                    name: name.to_owned(),
                    author: author.to_owned(),
                    license,
                    description: description.to_owned(),
                },
            )
        }
    }

    /// The unit's name.
    pub fn name(&self) -> (r: &str)
        ensures
            r@ == self@.name,
            self@.valid(),
    {
        proof {
            use_type_invariant(self);
        }
        self.name.as_str()
    }

    /// The unit's author.
    pub fn author(&self) -> (r: &str)
        ensures
            r@ == self@.author,
    {
        self.author.as_str()
    }

    /// The license that the unit declares.
    pub fn license(&self) -> (r: License)
        ensures
            r == self@.license,
    {
        self.license
    }

    /// The unit's description.
    pub fn description(&self) -> (r: &str)
        ensures
            r@ == self@.description,
    {
        self.description.as_str()
    }

    /// Judges the descriptor by its license: `UnknownLicense` where the host
    /// does not know it. Whether the name is free is for the host to say;
    /// see [`ModuleDescriptor::validate_among`].
    pub fn validate(&self) -> (r: Result<(), RegistrationError>)
        ensures
            r == validation(self@),
    {
        if self.license.is_recognized() {
            Ok(())
        } else {
            Err(RegistrationError::UnknownLicense)
        }
    }

    /// Judges the descriptor in a host where the units named `registered`
    /// are loaded already: `UnknownLicense` where the host does not know the
    /// license, else `DuplicateName` where the name is in use.
    pub fn validate_among(&self, registered: &Vec<String>) -> (r: Result<(), RegistrationError>)
        ensures
            r == validation_among(self@, names_of(registered@)),
    {
        if !self.license.is_recognized() {
            return Err(RegistrationError::UnknownLicense);
        }
        let ghost names = names_of(registered@);
        let mut i: usize = 0;
        while i < registered.len()
            invariant
                i <= registered@.len(),
                names == names_of(registered@),
                self@.license.recognized(),
                forall|j: int| 0 <= j < i ==> names[j] != self@.name,
            decreases registered@.len() - i,
        {
            if same_text(registered[i].as_str(), self.name.as_str()) {
                assert(names[i as int] == self@.name);
                return Err(RegistrationError::DuplicateName);
            }
            i += 1;
        }
        Ok(())
    }
}

} // verus!
