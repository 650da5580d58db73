use vstd::prelude::*;

verus! {

/// Current project identity used by platform adapters.
#[derive(Debug, Clone, Copy, PartialEq, Eq)]
pub struct ProjectIdentity {
    pub qualifier: &'static str,
    pub organization: &'static str,
    pub application: &'static str,
    pub bundle_id: &'static str,
}

/// User-visible product name.
pub const PRODUCT_NAME: &'static str = "Nanika";

/// Identity of the current distribution.
pub open spec fn current_project_identity() -> ProjectIdentity {
    ProjectIdentity {
        qualifier: "com",
        organization: "nanika",
        application: "Nanika",
        bundle_id: "com.nanika.nanika",
    }
}

/// Identity of the current distribution.
pub fn project_identity() -> (identity: ProjectIdentity)
    ensures
        identity == current_project_identity(),
{
    ProjectIdentity {
        qualifier: "com",
        organization: "nanika",
        application: "Nanika",
        bundle_id: "com.nanika.nanika",
    }
}

} // verus!
