//! Command-line argument validation: the program takes exactly one positional
//! argument, the file path.

use vstd::prelude::*;

use crate::errors::IoError;

verus! {

/// Pick the file path out of the argument vector (the program name first,
/// then the positionals). Exactly one positional is accepted: any other count
/// is `InvalidArguments`, and no file operation is attempted.
pub fn parse_args(args: &Vec<String>) -> (r: Result<String, IoError>)
    ensures
        match r {
            Ok(path) => args@.len() == 2 && path@ == args@[1]@,
            Err(e) => args@.len() != 2 && e is InvalidArguments,
        },
{
    if args.len() == 2 {
        Ok(args[1].clone())
    } else {
        Err(IoError::InvalidArguments)
    }
}

} // verus!
