//! The compute half of the socket echo services the board runs: how a reply
//! payload is built from a received one.  The socket I/O around it — recv,
//! send, endpoint bookkeeping — stays with the protocol stack.

use vstd::prelude::*;

verus! {

/// A payload with its first `k` bytes reversed and the rest untouched.
pub open spec fn reversed_prefix(s: Seq<u8>, k: int) -> Seq<u8> {
    Seq::new(
        s.len(),
        |i: int|
            if i < k {
                s[k - 1 - i]
            } else {
                s[i]
            },
    )
}

/// The UDP echo reply: every byte but the final one reversed in place.
pub fn udp_echo_reply(data: &Vec<u8>) -> (reply: Vec<u8>)
    requires
        1 <= data@.len(),
    ensures
        reply@ == reversed_prefix(data@, data@.len() - 1),
{
    let n = data.len();
    let mut reply: Vec<u8> = Vec::new();
    let mut i: usize = 0;
    while i < n - 1
        invariant
            n == data@.len(),
            1 <= n,
            reply@.len() == i,
            i <= n - 1,
            forall|k: int| 0 <= k < i ==> reply@[k] == data@[n - 2 - k],
        decreases n - 1 - i,
    {
        reply.push(data[n - 2 - i]);
        i = i + 1;
    }
    reply.push(data[n - 1]);
    proof {
        assert(reply@ =~= reversed_prefix(data@, n as int - 1));
    }
    reply
}

/// The marker the TCP echo service prepends to every reply: `tcp: `.
pub open spec fn tcp_reply_prefix() -> Seq<u8> {
    seq![116u8, 99u8, 112u8, 58u8, 32u8]
}

/// The TCP echo reply: the marker, then the payload with every byte but its
/// final one reversed.  An empty payload draws no reply.
pub fn tcp_echo_reply(data: &Vec<u8>) -> (reply: Option<Vec<u8>>)
    ensures
        data@.len() == 0 ==> reply is None,
        data@.len() > 0 ==> (reply matches Some(r) && r@ == tcp_reply_prefix() + reversed_prefix(
            data@,
            data@.len() - 1,
        )),
{
    let n = data.len();
    if n == 0 {
        return None;
    }
    let mut reply: Vec<u8> = Vec::new();
    reply.push(116u8);
    reply.push(99u8);
    reply.push(112u8);
    reply.push(58u8);
    reply.push(32u8);
    let mut i: usize = 0;
    while i < n - 1
        invariant
            n == data@.len(),
            1 <= n,
            reply@.len() == 5 + i,
            i <= n - 1,
            forall|k: int| 0 <= k < 5 ==> (#[trigger] reply@[k]) == tcp_reply_prefix()[k],
            forall|k: int| 5 <= k < 5 + i ==> (#[trigger] reply@[k]) == data@[n - 2 - (k - 5)],
        decreases n - 1 - i,
    {
        reply.push(data[n - 2 - i]);
        i = i + 1;
    }
    reply.push(data[n - 1]);
    proof {
        assert(reply@ =~= tcp_reply_prefix() + reversed_prefix(data@, n as int - 1));
    }
    Some(reply)
}

} // verus!
