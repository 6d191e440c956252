use data_scraper::derivates::{
    derivative_contents_url, derivative_objects_url, first_derivative, select_core_object,
    CoreObject, Derivative, DerivativesResponse, ObjectsResponse,
};
use data_scraper::errors::IngestError;

fn object(id: &str, href: &str) -> CoreObject {
    CoreObject {
        id: id.to_string(),
        metadata: "mods".to_string(),
        label: "label".to_string(),
        last_modified: "2024-03-01T00:00:00Z".to_string(),
        href: href.to_string(),
    }
}

fn derivative(href: &str) -> Derivative {
    Derivative {
        kind: "file".to_string(),
        name: "report.xlsx".to_string(),
        path: "/report.xlsx".to_string(),
        parent_path: "/".to_string(),
        size: 1234,
        content_type: "application/vnd.ms-excel".to_string(),
        md5: "d41d8cd98f00b204e9800998ecf8427e".to_string(),
        extension: "xlsx".to_string(),
        href: href.to_string(),
    }
}

#[test]
fn zero_container_objects_is_not_found() {
    let resp = ObjectsResponse {
        num_found: 0,
        mycoreobjects: vec![],
    };
    assert_eq!(
        select_core_object(&resp).unwrap_err(),
        IngestError::NotFoundError
    );
}

#[test]
fn two_container_objects_use_the_first_and_warn() {
    let resp = ObjectsResponse {
        num_found: 2,
        mycoreobjects: vec![object("a", "https://h/a"), object("b", "https://h/b")],
    };
    let sel = select_core_object(&resp).unwrap();
    assert_eq!(sel.href, "https://h/a");
    assert!(sel.warned);
}

#[test]
fn one_container_object_does_not_warn() {
    let resp = ObjectsResponse {
        num_found: 1,
        mycoreobjects: vec![object("a", "https://h/a")],
    };
    let sel = select_core_object(&resp).unwrap();
    assert_eq!(sel.href, "https://h/a");
    assert!(!sel.warned);
}

#[test]
fn first_content_entry_is_selected() {
    let resp = DerivativesResponse {
        children: vec![derivative("https://h/files/r.xlsx"), derivative("https://h/other")],
    };
    let d = first_derivative(&resp).unwrap();
    assert_eq!(d.href, "https://h/files/r.xlsx");
}

#[test]
fn empty_content_listing_is_malformed() {
    let resp = DerivativesResponse { children: vec![] };
    assert_eq!(
        first_derivative(&resp).unwrap_err(),
        IngestError::ParseNoChildren
    );
}

#[test]
fn metadata_urls_follow_the_endpoint_shapes() {
    assert_eq!(
        derivative_objects_url("DEHeft_mods_00012345"),
        "https://www.statistischebibliothek.de/mir/api/v1/objects/DEHeft_mods_00012345/derivates?format=json"
    );
    assert_eq!(
        derivative_contents_url("https://h/api/v1/derivates/DEDerivate_1"),
        "https://h/api/v1/derivates/DEDerivate_1/contents?format=json"
    );
}
