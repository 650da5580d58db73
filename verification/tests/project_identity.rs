use nanika::project_identity::{project_identity, PRODUCT_NAME};

#[test]
fn exposes_current_project_identity() {
    assert_eq!(PRODUCT_NAME, "Nanika");
    assert_eq!(project_identity().bundle_id, "com.nanika.nanika");
}

#[test]
fn project_identity_names_the_distribution() {
    let identity = project_identity();
    assert_eq!(identity.qualifier, "com");
    assert_eq!(identity.organization, "nanika");
    assert_eq!(identity.application, "Nanika");
}
