//! Choosing how the program runs from its (already parsed) arguments, and
//! starting a client run.
use vstd::prelude::*;
use crate::{request_code, REQUEST, RUNMODE};
use crate::primitives::str_equal;

verus! {

/// Runs a client for `request` through `run_client` (which does the network
/// work and gives the final status), passing it the address, the port, the
/// request's code and the payload file.  Without a request the result is
/// `EINVAL` and nothing is run.
pub fn run_client_mode<F: FnOnce(String, String, u16, Option<String>) -> u16>(
    addr: String,
    port: String,
    request: Option<REQUEST>,
    file: Option<String>,
    run_client: F,
) -> (status: u16)
    requires
        request matches Some(r) ==> call_requires(
            run_client,
            (addr, port, request_code(r), file),
        ),
    ensures
        request is None ==> status == crate::EINVAL,
        request matches Some(r) ==> call_ensures(
            run_client,
            (addr, port, request_code(r), file),
            status,
        ),
{
    if let Some(req) = request {
        run_client(addr, port, req.code(), file)
    } else {
        return crate::EINVAL;
    }
}

/// The run mode that the arguments ask for: a client when the mode is
/// "client", a server otherwise (also when no mode was given).
pub fn runmode_from_args(
    mode: Option<String>,
    addr: String,
    port: String,
    request: Option<REQUEST>,
    file: Option<String>,
) -> (r: RUNMODE)
    ensures
        (mode matches Some(m) && m@ == "client"@) ==> r == RUNMODE::CLIENT(addr, port, request, file),
        !(mode matches Some(m) && m@ == "client"@) ==> r == RUNMODE::SERVER(addr, port),
{
    if let Some(mode) = mode {
        if str_equal(mode.as_str(), "client") {
            RUNMODE::CLIENT(addr, port, request, file)
        } else {
            RUNMODE::SERVER(addr, port)
        }
    } else {
        RUNMODE::SERVER(addr, port)
    }
}

} // verus!
