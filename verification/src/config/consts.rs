use vstd::prelude::*;

verus! {

pub const PASSWORD_LENGTH_MINIMUM: usize = 12;

pub const PASSWORD_LENGTH_MAXIMUM: usize = 128;

pub const USERNAME_LENGTH_MINIMUM: usize = 2;

pub const USERNAME_LENGTH_MAXIMUM: usize = 128;

pub const TOASTS_TIMEOUT: u64 = 3;

} // verus!
