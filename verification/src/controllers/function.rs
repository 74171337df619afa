//! The decisions of the function controller: which functions get an image,
//! where their code is fetched from, and the image they are given.

use vstd::prelude::*;
use crate::informer::ReflectorNotification;
use crate::objects::function::{Function, FunctionStatus};
use crate::text::push_str;
use super::replica_set::ControllerError;

verus! {

/// The function whose image is to be built after a change: a new function;
/// nothing for an update or a deletion.
pub fn function_to_build(n: ReflectorNotification<Function>) -> (r: Option<Function>)
    ensures
        match n {
            ReflectorNotification::Add(f) => r == Some(f),
            _ => r is None,
        },
{
    match n {
        ReflectorNotification::Add(f) => Some(f),
        _ => None,
    }
}

/// Where an uploaded code file is fetched from: the API server's temporary
/// files.
pub fn code_url(api_server_url: &str, filename: &str) -> (r: String)
    ensures
        r@ == api_server_url@ + "/api/v1/tmp/"@ + filename@,
{
    let mut r = crate::text::to_owned_string(api_server_url);
    push_str(&mut r, "/api/v1/tmp/");
    push_str(&mut r, filename);
    r
}

/// The tag of a function's image: the registry `minik8s.xyz`, a slash and
/// the function's name.
pub fn image_tag(name: &str) -> (r: String)
    ensures
        r@ == "minik8s.xyz/"@ + name@,
{
    let mut r = crate::text::to_owned_string("minik8s.xyz/");
    push_str(&mut r, name);
    r
}

/// The function with its image built as `tag`, to post as its new status.
/// Fails when the function has no status.
pub fn with_image(func: Function, tag: String) -> (r: Result<Function, ControllerError>)
    ensures
        match func.status {
            Some(s) => r == Ok::<Function, ControllerError>(
                Function { status: Some(FunctionStatus { image: Some(tag), ..s }), ..func },
            ),
            None => r == Err::<Function, ControllerError>(ControllerError::MissingStatus),
        },
{
    let mut func = func;
    match func.status {
        Some(mut s) => {
            s.image = Some(tag);
            func.status = Some(s);
            Ok(func)
        },
        None => Err(ControllerError::MissingStatus),
    }
}

} // verus!
