use vstd::prelude::*;

verus! {

/// A downloadable processing-block package, as the remote registry lists
/// it: an immutable value produced from the registry's answer.
#[derive(Debug, Clone)]
pub struct Package {
    pub name: String,
    pub description: String,
    pub last_version: String,
    pub public_url: String,
}

/// The mathematical content of a [`Package`].
pub struct PackageView {
    pub name: Seq<char>,
    pub description: Seq<char>,
    pub last_version: Seq<char>,
    pub public_url: Seq<char>,
}

impl View for Package {
    type V = PackageView;

    open spec fn view(&self) -> PackageView {
        PackageView {
            name: self.name@,
            description: self.description@,
            last_version: self.last_version@,
            public_url: self.public_url@,
        }
    }
}

impl Package {
    /// A copy with the same content, field for field.
    pub fn duplicate(&self) -> (r: Package)
        ensures
            r@ == self@,
    {
        Package {
            name: self.name.clone(),
            description: self.description.clone(),
            last_version: self.last_version.clone(),
            public_url: self.public_url.clone(),
        }
    }
}

} // verus!
