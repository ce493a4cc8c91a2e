use vstd::prelude::*;

use super::unfrozen::{Organization, OrganizationView};
use crate::acl::Acl;

verus! {

/// What anyone may read of an organization: its name.
pub struct Public {
    pub name: String,
}

impl Public {
    pub fn from_organization(organization: Organization) -> (r: Public)
        ensures
            r.name@ == organization@.name,
    {
        Public { name: organization.name }
    }

    /// An organization with the public name, and the default (empty) ACL.
    pub fn into_organization(self) -> (r: Organization)
        ensures
            r@ == (OrganizationView { name: self.name@, acl: Acl::empty_view() }),
    {
        Organization { name: self.name, acl: Acl::default() }
    }
}

} // verus!
