use vstd::prelude::*;

use crate::errors::IngestError;

verus! {

/// The metadata endpoint's answer for an edition: the container objects
/// attached to it.  The carried timestamp is kept as its transmitted text.
#[derive(Debug)]
pub struct ObjectsResponse {
    pub num_found: i32,
    pub mycoreobjects: Vec<CoreObject>,
}

/// One container object of an edition.
#[derive(Debug)]
pub struct CoreObject {
    pub id: String,
    pub metadata: String,
    pub label: String,
    pub last_modified: String,
    pub href: String,
}

/// A container object's content listing.
#[derive(Debug)]
pub struct DerivativesResponse {
    pub children: Vec<Derivative>,
}

/// One downloadable file artifact attached to an edition's container.
#[derive(Debug)]
pub struct Derivative {
    pub kind: String,
    pub name: String,
    pub path: String,
    pub parent_path: String,
    pub size: usize,
    pub content_type: String,
    pub md5: String,
    pub extension: String,
    pub href: String,
}

/// The container object chosen for an edition, and whether the anomaly of
/// several candidates was seen (a recoverable condition, logged upstream).
#[derive(Debug)]
pub struct SelectedObject {
    pub href: String,
    pub warned: bool,
}

/// Chooses the container object for an edition.  Exactly one is expected:
/// zero fails the edition with [`IngestError::NotFoundError`]; several
/// select the first and set the warning flag.
pub fn select_core_object(resp: &ObjectsResponse) -> (r: Result<SelectedObject, IngestError>)
    ensures
        resp.mycoreobjects@.len() == 0 ==> r == Err::<SelectedObject, IngestError>(
            IngestError::NotFoundError,
        ),
        resp.mycoreobjects@.len() > 0 ==> (r matches Ok(s) && s.href@
            == resp.mycoreobjects@[0].href@ && s.warned == (resp.mycoreobjects@.len() > 1)),
{
    if resp.mycoreobjects.len() == 0 {
        Err(IngestError::NotFoundError)
    } else {
        let warned = resp.mycoreobjects.len() > 1;
        Ok(SelectedObject { href: resp.mycoreobjects[0].href.clone(), warned })
    }
}

/// The first entry of a container's content listing, whose metadata the
/// edition's download uses; an empty listing is a malformed response.
pub fn first_derivative(resp: &DerivativesResponse) -> (r: Result<&Derivative, IngestError>)
    ensures
        resp.children@.len() == 0 ==> r == Err::<&Derivative, IngestError>(
            IngestError::ParseNoChildren,
        ),
        resp.children@.len() > 0 ==> (r matches Ok(d) && *d == resp.children@[0]),
{
    if resp.children.len() == 0 {
        Err(IngestError::ParseNoChildren)
    } else {
        Ok(&resp.children[0])
    }
}

/// The derivates query for an edition identifier.
pub fn derivative_objects_url(mods_id: &str) -> (r: String)
    ensures
        r@ == "https://www.statistischebibliothek.de/mir/api/v1/objects/"@ + mods_id@
            + "/derivates?format=json"@,
{
    let mut s = "https://www.statistischebibliothek.de/mir/api/v1/objects/".to_owned();
    s.append(mods_id);
    s.append("/derivates?format=json");
    s
}

/// The content-listing query for a chosen container object.
pub fn derivative_contents_url(object_href: &str) -> (r: String)
    ensures
        r@ == object_href@ + "/contents?format=json"@,
{
    let mut s = object_href.to_owned();
    s.append("/contents?format=json");
    s
}

} // verus!
