use vstd::prelude::*;

verus! {

/// The demonstration node of the example program.
pub struct Node {
    pub addr: String,
}

impl Node {
    /// A method that is not public, and is therefore not part of the node's RPC interface.
    pub fn private(&self) -> (r: bool)
        ensures
            r == false,
    {
        false
    }

    /// Reports that the node is alive.
    pub fn alive(&self) -> (r: bool)
        ensures
            r == true,
    {
        true
    }
}

/// The ports in `start..end` other than `me`, in increasing order.
pub open spec fn peers_of(start: u16, end: u16, me: u16) -> Seq<u16>
    decreases end,
{
    if end <= start {
        Seq::empty()
    } else {
        let rest = peers_of(start, (end - 1) as u16, me);
        if end - 1 != me {
            rest.push((end - 1) as u16)
        } else {
            rest
        }
    }
}

/// The peers of `me` in `start..end` are every port of the range other than
/// `me` and nothing else, in strictly increasing order: `end - start` ports,
/// less one when `me` is in the range.
pub proof fn lemma_peers_are_the_other_ports(start: u16, end: u16, me: u16)
    ensures
        ({
            let r = peers_of(start, end, me);
            &&& forall|p: u16| start <= p < end ==> (r.contains(p) <==> p != me)
            &&& forall|i: int| 0 <= i < r.len() ==> start <= #[trigger] r[i] < end && r[i] != me
            &&& forall|i: int, j: int| 0 <= i < j < r.len() ==> #[trigger] r[i] < #[trigger] r[j]
            &&& r.len() == if end <= start {
                0
            } else if start <= me < end {
                end - start - 1
            } else {
                end - start
            }
        }),
    decreases end,
{
    if end > start {
        let e1 = (end - 1) as u16;
        lemma_peers_are_the_other_ports(start, e1, me);
        let pre = peers_of(start, e1, me);
        let r = peers_of(start, end, me);
        if e1 != me {
            assert(r == pre.push(e1));
            assert forall|p: u16| start <= p < end implies (r.contains(p) <==> p != me) by {
                if p == e1 {
                    assert(r[r.len() - 1] == e1);
                } else if p != me {
                    assert(pre.contains(p));
                    let k = choose|k: int| 0 <= k < pre.len() && pre[k] == p;
                    assert(r[k] == p);
                } else if r.contains(p) {
                    let k = choose|k: int| 0 <= k < r.len() && r[k] == p;
                    if k < pre.len() {
                        assert(pre[k] == p);
                    }
                }
            }
        } else {
            assert(r == pre);
        }
    }
}

/// The ports of the other nodes of a cluster that listens on `start..end`,
/// seen from the node that listens on `me`.
pub fn peer_ports(start: u16, end: u16, me: u16) -> (r: Vec<u16>)
    ensures
        r@ == peers_of(start, end, me),
        forall|p: u16| start <= p < end ==> (r@.contains(p) <==> p != me),
        forall|i: int| 0 <= i < r@.len() ==> start <= #[trigger] r@[i] < end && r@[i] != me,
        forall|i: int, j: int| 0 <= i < j < r@.len() ==> #[trigger] r@[i] < #[trigger] r@[j],
        r@.len() == if end <= start {
            0
        } else if start <= me < end {
            end - start - 1
        } else {
            end - start
        },
{
    proof {
        lemma_peers_are_the_other_ports(start, end, me);
    }
    let mut r: Vec<u16> = Vec::new();
    if end <= start {
        return r;
    }
    let mut p: u16 = start;
    while p < end
        invariant
            start <= p <= end,
            r@ == peers_of(start, p, me),
        decreases end - p,
    {
        if p != me {
            r.push(p);
        }
        p = p + 1;
    }
    r
}

} // verus!
