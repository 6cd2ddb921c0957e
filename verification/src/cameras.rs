//! The camera roster: the device reports its cameras as an object that maps
//! an id to a camera, and the roster is the cameras' names.

use crate::decode::{device_document, document_of, message_value, value_of, DecodeError};
use crate::json::{Json, JsonTree};
use vstd::prelude::*;

verus! {

/// The display names of the cameras. Their order carries no meaning.
pub type Cameras = Vec<String>;

/// The property under which the device reports its cameras.
pub const CAMERAS_PROPERTY: &'static str = "State.Cameras";

/// The characters of each name.
pub open spec fn names_of(cameras: Seq<String>) -> Seq<Seq<char>> {
    Seq::new(cameras.len(), |i: int| cameras[i]@)
}

/// The name of one camera: the text under `Name`.
pub open spec fn camera_name(camera: JsonTree) -> Option<Seq<char>> {
    match camera.member("Name"@) {
        Some(name) => name.text(),
        None => None,
    }
}

/// The names of all `cameras`, in order; `None` where one of them has no name.
pub open spec fn camera_names_of(cameras: Seq<(Seq<char>, JsonTree)>) -> Option<Seq<Seq<char>>> {
    if forall|i: int| 0 <= i < cameras.len() ==> camera_name(#[trigger] cameras[i].1) is Some {
        Some(Seq::new(cameras.len(), |i: int| camera_name(cameras[i].1)->0))
    } else {
        None
    }
}

/// The roster that `doc` holds under `Message.Value`: that value is an
/// object, and each of its members is a camera with a name.
pub open spec fn roster_of(doc: JsonTree) -> Option<Seq<Seq<char>>> {
    match value_of(doc) {
        Some(value) => match value.members() {
            Some(cameras) => camera_names_of(cameras),
            None => None,
        },
        None => None,
    }
}

/// The roster that `response` carries.
pub open spec fn decoded_roster(response: Seq<char>) -> Result<Seq<Seq<char>>, DecodeError> {
    match document_of(response) {
        Err(e) => Err(e),
        Ok(doc) => match roster_of(doc) {
            None => Err(DecodeError::UnexpectedShape),
            Some(names) => Ok(names),
        },
    }
}

/// The roster that `doc` holds under `Message.Value`.
pub fn camera_names(doc: &Json) -> (names: Option<Cameras>)
    ensures
        names is Some <==> roster_of(doc@) is Some,
        names is Some ==> names_of(names->0@) == roster_of(doc@)->0,
{
    let value = match message_value(doc) {
        Some(value) => value,
        None => { return None; },
    };
    let cameras = match value.as_members() {
        Some(cameras) => cameras,
        None => { return None; },
    };
    let ghost all = value@.members()->0;
    let mut names: Vec<String> = Vec::new();
    let mut i: usize = 0;
    while i < cameras.len()
        invariant
            i <= cameras.len(),
            roster_of(doc@) == camera_names_of(all),
            all.len() == cameras.len(),
            forall|k: int| 0 <= k < cameras.len() ==> (#[trigger] all[k]).1 == cameras[k].1@,
            names.len() == i,
            forall|k: int| 0 <= k < i ==> camera_name(#[trigger] all[k].1) == Some(names[k]@),
        decreases cameras.len() - i,
    {
        let name = match cameras[i].1.member("Name") {
            Some(name) => name.as_text(),
            None => None,
        };
        match name {
            Some(text) => {
                names.push(text.to_owned());
            },
            None => {
                proof {
                    assert(camera_name(all[i as int].1) is None);
                }
                return None;
            },
        }
        i += 1;
    }
    proof {
        assert(names_of(names@) =~= camera_names_of(all)->0);
    }
    Some(names)
}

/// Decodes the answer to a request for the camera roster.
pub fn get_cameras(response: &str) -> (cameras: Result<Cameras, DecodeError>)
    ensures
        cameras is Ok <==> decoded_roster(response@) is Ok,
        cameras is Ok ==> names_of(cameras->Ok_0@) == decoded_roster(response@)->Ok_0,
        cameras is Err ==> cameras->Err_0 == decoded_roster(response@)->Err_0,
{
    match device_document(response) {
        Err(e) => Err(e),
        Ok(doc) => match camera_names(&doc) {
            None => Err(DecodeError::UnexpectedShape),
            Some(names) => Ok(names),
        },
    }
}

} // verus!
