use vstd::prelude::*;

verus! {

/// Hands an error on, widened, as `Some(Err(..))`; an `Ok` value ends in
/// `None`.
pub fn try_wrap_err_or_none(res: Result<u16, u16>) -> (r: Option<Result<u16, u32>>)
    ensures
        match res {
            Ok(_) => r is None,
            Err(error) => r == Some(Err::<u16, u32>(error as u32)),
        },
{
    match res {
        Ok(_ok_val) => None,
        Err(error) => Some(Err(error as u32)),
    }
}

} // verus!
