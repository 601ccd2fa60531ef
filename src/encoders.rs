use vstd::prelude::*;
use crate::protocol::RequestMessage;

verus! {

/// Subscribes to positions of every account: tag and message version.
pub fn request_positions() -> (r: RequestMessage)
    ensures
        r@ == seq!["61"@, "1"@],
{
    let fields = vec![String::from_str("61"), String::from_str("1")];
    let r = RequestMessage { fields };
    assert(r@ =~= seq!["61"@, "1"@]);
    r
}

/// Ends the position subscription: tag and message version.
pub fn cancel_positions() -> (r: RequestMessage)
    ensures
        r@ == seq!["64"@, "1"@],
{
    let fields = vec![String::from_str("64"), String::from_str("1")];
    let r = RequestMessage { fields };
    assert(r@ =~= seq!["64"@, "1"@]);
    r
}

/// Asks for the family codes of every account: the tag alone.
pub fn request_family_codes() -> (r: RequestMessage)
    ensures
        r@ == seq!["80"@],
{
    let fields = vec![String::from_str("80")];
    let r = RequestMessage { fields };
    assert(r@ =~= seq!["80"@]);
    r
}

} // verus!
