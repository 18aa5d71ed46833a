use vstd::prelude::*;
use crate::auth::{password_matches, NewUser};

verus! {

/// The seed users a fresh development or test database is provisioned with.
/// Each row's stored credential is the salted hash of its plain password.
pub fn users() -> (r: Vec<NewUser>)
    ensures
        r@.len() == 2,
        r@[0].email@ == "miles.davis@trumpet.com"@,
        password_matches("passw0rd"@, r@[0].password@),
        r@[1].email@ == "marcus.miller@bass.com"@,
        password_matches("secr3t"@, r@[1].password@),
{
    proof {
        reveal_strlit("passw0rd");
        reveal_strlit("secr3t");
    }
    let mut v: Vec<NewUser> = Vec::new();
    v.push(
        NewUser::hashed(
            String::from_str("miles.davis@trumpet.com"),
            &String::from_str("passw0rd"),
        ),
    );
    v.push(
        NewUser::hashed(
            String::from_str("marcus.miller@bass.com"),
            &String::from_str("secr3t"),
        ),
    );
    v
}

} // verus!
