use vstd::prelude::*;

verus! {

/// A failure described in words, for diagnostics.
#[derive(Debug)]
pub struct CustomError {
    pub message: String,
}

impl CustomError {
    pub fn new(message: &str) -> (r: CustomError)
        ensures
            r.message@ == message@,
    {
        CustomError { message: message.to_owned() }
    }
}

} // verus!
