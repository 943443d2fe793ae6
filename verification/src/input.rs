//! Reading the request from the command line.

use crate::error::AnalysisError;
use vstd::prelude::*;

verus! {

/// What one run is asked to do: analyse the file at `path`.
#[derive(Debug)]
pub struct AnalysisRequest {
    pub path: String,
}

/// Takes the request from the process's argument list, whose first element
/// is the program's name. The list must hold exactly one path besides it;
/// any other number of arguments is a usage error.
pub fn resolve_input(args: &Vec<String>) -> (r: Result<AnalysisRequest, AnalysisError>)
    ensures
        args@.len() == 2 ==> (r matches Ok(request) && request.path@ == args@[1]@),
        args@.len() != 2 ==> r matches Err(AnalysisError::Usage),
{
    if args.len() == 2 {
        Ok(AnalysisRequest { path: args[1].clone() })
    } else {
        Err(AnalysisError::Usage)
    }
}

} // verus!
