//! The handle of the runtime's API, from the `podman-api` crate.
//!
//! Everything in this file is believed, not proved. The library only makes a handle and
//! carries it; every request through it is made by the library's user.
//!
//! For which addresses a handle can be made is for `podman-api` to say. The library gives
//! that decision a name, [`gateway_accepts`], and claims nothing of it but that it is a
//! decision on the address alone.

use podman_api::Podman;
use vstd::prelude::*;

verus! {

/// `podman_api::Podman`, the handle, taken as it is: nothing of its inside is seen.
#[verifier::external_type_specification]
#[verifier::external_body]
pub struct ExPodman(podman_api::Podman);

/// `podman_api::Error`, taken as it is: nothing of its inside is seen.
#[verifier::external_type_specification]
#[verifier::external_body]
pub struct ExGatewayError(podman_api::Error);

/// Whether `Podman::new` makes a handle for the address.
pub uninterp spec fn gateway_accepts(url: Seq<char>) -> bool;

/// `Podman::new`: a handle for the address, or the reason why none can be made. The
/// function takes the address apart at `://`, and for the schemes `tcp` and `http` parses
/// what follows as a URL; it reads nothing else and does not reach for the endpoint. So
/// whether there is a handle depends on the address alone, in one build of the crate (a
/// build for a target without Unix sockets refuses the scheme `unix`). Of the handle and
/// of the reason nothing is claimed.
#[verifier::external_body]
pub(crate) fn open_gateway(url: &str) -> (gateway: Result<Podman, podman_api::Error>)
    ensures
        gateway is Ok <==> gateway_accepts(url@),
{
    Podman::new(url)
}

/// `ToString::to_string` of an error of `podman-api`: the error in words. Nothing is
/// claimed of the text.
#[verifier::external_body]
pub(crate) fn gateway_error_text(error: &podman_api::Error) -> (text: String) {
    error.to_string()
}

} // verus!
