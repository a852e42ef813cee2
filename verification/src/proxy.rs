//! Which socket is relayed to which server.
use vstd::prelude::*;
use crate::daemon::ListenObject;

verus! {

/// A socket, and the server that it is relayed to.
pub struct Proxy {
    pub object: ListenObject,
    pub addr_out: String,
}

/// Pairs the sockets with the servers, in order. What is left over on either side is ignored.
pub fn pair(objects: &Vec<ListenObject>, addr_out: &Vec<String>) -> (r: Vec<Proxy>)
    ensures
        r@.len() == if objects@.len() < addr_out@.len() {
            objects@.len()
        } else {
            addr_out@.len()
        },
        forall|i: int|
            0 <= i < r@.len() ==> (#[trigger] r@[i]).object == objects@[i] && r@[i].addr_out@
                == addr_out@[i]@,
{
    let mut out: Vec<Proxy> = Vec::new();
    let mut i: usize = 0;
    while i < objects.len() && i < addr_out.len()
        invariant
            i <= objects@.len(),
            i <= addr_out@.len(),
            out@.len() == i,
            forall|j: int|
                0 <= j < i ==> (#[trigger] out@[j]).object == objects@[j] && out@[j].addr_out@
                    == addr_out@[j]@,
        decreases objects@.len() - i,
    {
        out.push(Proxy { object: objects[i], addr_out: addr_out[i].clone() });
        i = i + 1;
    }
    out
}

/// Every call of [`pair`] relays the first sockets to the first servers, each to its own, and as many as
/// there are of both.
pub proof fn law_pair()
    ensures
        forall|objects: &Vec<ListenObject>, addr_out: &Vec<String>, r: Vec<Proxy>| #[trigger]
            call_ensures(pair, (objects, addr_out), r) ==> {
                &&& r@.len() <= objects@.len()
                &&& r@.len() <= addr_out@.len()
                &&& r@.len() == objects@.len() || r@.len() == addr_out@.len()
                &&& forall|i: int|
                    0 <= i < r@.len() ==> (#[trigger] r@[i]).object == objects@[i]
                        && r@[i].addr_out@ == addr_out@[i]@
            },
{
}

} // verus!
