use vstd::prelude::*;

verus! {

/// The two structured failures of a run.
///
/// `WrongNumberOfArguments` carries the number of command-line arguments
/// that were given (the program name not counted). `LackOfPartInTheFile`
/// names the category that the parts file lacks.
#[derive(Debug)]
pub enum Error {
    WrongNumberOfArguments(u16),
    LackOfPartInTheFile(String),
}

/// Accepts exactly one command-line argument; any other count is rejected
/// with `WrongNumberOfArguments` carrying that count.
pub fn validate_arg_count(count: u16) -> (r: Result<(), Error>)
    ensures
        r is Ok <==> count == 1,
        count != 1 ==> r == Err::<(), Error>(Error::WrongNumberOfArguments(count)),
{
    if count == 1 {
        Ok(())
    } else {
        Err(Error::WrongNumberOfArguments(count))
    }
}

} // verus!
