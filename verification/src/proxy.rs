//! How the proxy ends: it runs until one of its workers ends, and the first
//! worker that ends with an error names the failure.

use vstd::prelude::*;

verus! {

/// The workers of the proxy, in the order in which the supervisor looks at them.
#[derive(Debug, Clone, Copy, PartialEq, Eq, Structural)]
pub enum Worker {
    Interceptor,
    GatewayReader,
    ControllerReader,
    GatewayWriter,
    ControllerWriter,
    OtaProcessor,
    NodeManager,
}

/// The words that name the failure of a worker.
pub open spec fn failure_text(worker: Worker) -> Seq<char> {
    match worker {
        Worker::Interceptor => "Error in Message interceptor"@,
        Worker::GatewayReader => "Error in Gateway reader"@,
        Worker::ControllerReader => "Error in Controller reader"@,
        Worker::GatewayWriter => "Error in Gateway writer"@,
        Worker::ControllerWriter => "Error in Controller writer"@,
        Worker::OtaProcessor => "Error in OTA processor"@,
        Worker::NodeManager => "Error in Node Manager"@,
    }
}

/// How the proxy ended: `failed` is the first worker that ended with an
/// error, if one did.
pub fn outcome(failed: Option<Worker>) -> (r: Result<String, String>)
    ensures
        match failed {
            None => r is Ok && r->Ok_0@ == "Done"@,
            Some(worker) => r is Err && r->Err_0@ == failure_text(worker),
        },
{
    match failed {
        None => Ok("Done".to_owned()),
        Some(Worker::Interceptor) => Err("Error in Message interceptor".to_owned()),
        Some(Worker::GatewayReader) => Err("Error in Gateway reader".to_owned()),
        Some(Worker::ControllerReader) => Err("Error in Controller reader".to_owned()),
        Some(Worker::GatewayWriter) => Err("Error in Gateway writer".to_owned()),
        Some(Worker::ControllerWriter) => Err("Error in Controller writer".to_owned()),
        Some(Worker::OtaProcessor) => Err("Error in OTA processor".to_owned()),
        Some(Worker::NodeManager) => Err("Error in Node Manager".to_owned()),
    }
}

/// The exit code of a clean end.
pub const EXIT_OK: u8 = 0u8;

/// The exit code where the settings cannot be used.
pub const EXIT_CONFIGURATION: u8 = 1u8;

/// The exit code where a worker failed.
pub const EXIT_TRANSPORT: u8 = 2u8;

/// The exit code of the program: `configured` says whether the settings
/// could be used, `failed` names the first worker that ended with an error.
pub fn exit_code(configured: bool, failed: Option<Worker>) -> (r: u8)
    ensures
        r == if !configured {
            EXIT_CONFIGURATION
        } else if failed is Some {
            EXIT_TRANSPORT
        } else {
            EXIT_OK
        },
{
    if !configured {
        EXIT_CONFIGURATION
    } else {
        match failed {
            Some(_) => EXIT_TRANSPORT,
            None => EXIT_OK,
        }
    }
}

/// The first worker, in the supervisor's order, that ended with an error.
pub open spec fn first_failed(failed: Seq<bool>) -> Option<Worker> {
    if failed[0] {
        Some(Worker::Interceptor)
    } else if failed[1] {
        Some(Worker::GatewayReader)
    } else if failed[2] {
        Some(Worker::ControllerReader)
    } else if failed[3] {
        Some(Worker::GatewayWriter)
    } else if failed[4] {
        Some(Worker::ControllerWriter)
    } else if failed[5] {
        Some(Worker::OtaProcessor)
    } else if failed[6] {
        Some(Worker::NodeManager)
    } else {
        None
    }
}

/// Picks the first worker that ended with an error; `failed` says of each
/// worker, in the supervisor's order, whether it did.
pub fn first_failure(failed: &[bool; 7]) -> (r: Option<Worker>)
    ensures
        r == first_failed(failed@),
{
    if failed[0] {
        Some(Worker::Interceptor)
    } else if failed[1] {
        Some(Worker::GatewayReader)
    } else if failed[2] {
        Some(Worker::ControllerReader)
    } else if failed[3] {
        Some(Worker::GatewayWriter)
    } else if failed[4] {
        Some(Worker::ControllerWriter)
    } else if failed[5] {
        Some(Worker::OtaProcessor)
    } else if failed[6] {
        Some(Worker::NodeManager)
    } else {
        None
    }
}

} // verus!
