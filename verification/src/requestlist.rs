use vstd::prelude::*;
use vstd::std_specs::convert::FromSpecImpl;

use crate::request::Request;

verus! {

/// The requests that are still to be crawled; they are handed out last first.
#[derive(Clone, Debug)]
pub struct RequestList {
    sources: Vec<Request>,
}

/// The requests that `k` successive calls of `RequestList::next_request` hand
/// out, starting from a list whose pending requests are `s`.
pub open spec fn handed_out(s: Seq<Request>, k: nat) -> Seq<Request>
    decreases k,
{
    if k == 0 || s.len() == 0 {
        Seq::empty()
    } else {
        seq![s.last()] + handed_out(s.drop_last(), (k - 1) as nat)
    }
}

/// The requests still pending after `k` successive calls of
/// `RequestList::next_request` on a list whose pending requests are `s`.
pub open spec fn left_after(s: Seq<Request>, k: nat) -> Seq<Request> {
    if k >= s.len() {
        Seq::empty()
    } else {
        s.take(s.len() - k)
    }
}

proof fn lemma_handed_out_step(s: Seq<Request>, k: nat)
    ensures
        k < s.len() ==> handed_out(s, k + 1) == handed_out(s, k).push(s[s.len() - 1 - k]),
        k >= s.len() ==> handed_out(s, k + 1) == handed_out(s, k),
    decreases k,
{
    if s.len() > 0 && k > 0 {
        lemma_handed_out_step(s.drop_last(), (k - 1) as nat);
        if k < s.len() {
            assert(s.drop_last()[s.drop_last().len() - 1 - (k - 1)] == s[s.len() - 1 - k]);
            assert(handed_out(s, k + 1) =~= handed_out(s, k).push(s[s.len() - 1 - k]));
        }
    } else if s.len() > 0 {
        assert(handed_out(s.drop_last(), 0) =~= Seq::<Request>::empty());
        assert(handed_out(s, 1) =~= handed_out(s, 0).push(s[s.len() - 1]));
    }
}

impl RequestList {
    /// The pending requests, in the order they were given.
    pub closed spec fn sources(&self) -> Seq<Request> {
        self.sources@
    }

    fn new(sources: Vec<Request>) -> (res: Self)
        ensures
            res.sources == sources,
    {
        RequestList { sources }
    }

    /// Hands out the most recently added pending request, if any.
    pub fn next_request(&mut self) -> (next: Option<Request>)
        ensures
            old(self).sources().len() == 0 ==> next is None && final(self).sources() == old(
                self,
            ).sources(),
            old(self).sources().len() > 0 ==> next == Some(old(self).sources().last())
                && final(self).sources() == old(self).sources().drop_last(),
    {
        self.sources.pop()
    }

    /// Hands out pending requests by `count` successive calls of
    /// `next_request`, and returns what they handed out, in that order.
    pub fn next_requests(&mut self, count: usize) -> (taken: Vec<Request>)
        ensures
            taken@ == handed_out(old(self).sources(), count as nat),
            final(self).sources() == left_after(old(self).sources(), count as nat),
    {
        let ghost start = self.sources();
        let mut taken: Vec<Request> = Vec::new();
        let mut i: usize = 0;
        while i < count
            invariant
                i <= count,
                taken@ == handed_out(start, i as nat),
                self.sources() == left_after(start, i as nat),
            decreases count - i,
        {
            proof {
                lemma_handed_out_step(start, i as nat);
            }
            match self.next_request() {
                Some(req) => {
                    taken.push(req);
                },
                None => {},
            }
            proof {
                if (i as nat) < start.len() {
                    assert(left_after(start, i as nat).last() == start[start.len() - 1 - i]);
                    assert(left_after(start, i as nat).drop_last() =~= left_after(
                        start,
                        (i + 1) as nat,
                    ));
                }
            }
            i = i + 1;
        }
        taken
    }

    /// Whether no request is pending.
    pub fn is_empty(&self) -> (res: bool)
        ensures
            res == (self.sources().len() == 0),
    {
        self.sources.len() == 0
    }
}

impl From<Vec<Request>> for RequestList {
    fn from(src: Vec<Request>) -> (res: Self)
        ensures
            res.sources() == src@,
    {
        Self::new(src)
    }
}

impl FromSpecImpl<Vec<Request>> for RequestList {
    open spec fn obeys_from_spec() -> bool {
        true
    }

    closed spec fn from_spec(v: Vec<Request>) -> Self {
        RequestList { sources: v }
    }
}

proof fn lemma_left_after_drop_last(s: Seq<Request>, k: nat)
    requires
        s.len() > 0,
        k > 0,
    ensures
        left_after(s, k) == left_after(s.drop_last(), (k - 1) as nat),
{
    if k < s.len() {
        assert(left_after(s, k) =~= left_after(s.drop_last(), (k - 1) as nat));
    }
}

/// Every request is either still pending or handed out, never both and never
/// lost: after any number `k` of calls, the pending requests, followed by what
/// was handed out taken in reverse, are exactly the requests the list started
/// with. So the first `n - k` requests stay pending, in order, and the last
/// `k` were handed out, last first.
pub proof fn lemma_requests_partitioned(s: Seq<Request>, k: nat)
    ensures
        left_after(s, k) + handed_out(s, k).reverse() == s,
        k <= s.len() ==> left_after(s, k).len() == s.len() - k,
        k <= s.len() ==> handed_out(s, k).len() == k,
        k < s.len() ==> left_after(s, k) == s.take(s.len() - k),
        forall|i: int|
            0 <= i < handed_out(s, k).len() ==> #[trigger] handed_out(s, k)[i] == s[s.len() - 1
                - i],
    decreases k,
{
    if k == 0 || s.len() == 0 {
        assert(left_after(s, k) + handed_out(s, k).reverse() =~= s);
    } else {
        lemma_requests_partitioned(s.drop_last(), (k - 1) as nat);
        lemma_left_after_drop_last(s, k);
        let h = handed_out(s.drop_last(), (k - 1) as nat);
        assert(handed_out(s, k).reverse() =~= h.reverse().push(s.last()));
        assert(left_after(s, k) + handed_out(s, k).reverse() =~= (left_after(
            s.drop_last(),
            (k - 1) as nat,
        ) + h.reverse()).push(s.last()));
        assert(s =~= s.drop_last().push(s.last()));
        assert forall|i: int| 0 <= i < handed_out(s, k).len() implies #[trigger] handed_out(
            s,
            k,
        )[i] == s[s.len() - 1 - i] by {
            if i > 0 {
                assert(handed_out(s, k)[i] == h[i - 1]);
            }
        }
    }
}

/// Handing out `j` requests and then `k` more hands out, in order, what
/// handing out `j + k` at once does, and leaves the same requests pending.
pub proof fn lemma_handed_out_in_turns(s: Seq<Request>, j: nat, k: nat)
    ensures
        handed_out(s, j) + handed_out(left_after(s, j), k) == handed_out(s, j + k),
        left_after(left_after(s, j), k) == left_after(s, j + k),
    decreases j,
{
    if j == 0 {
        assert(left_after(s, 0) =~= s);
        assert(handed_out(s, 0) + handed_out(s, k) =~= handed_out(s, k));
    } else if s.len() == 0 {
        assert(left_after(s, j) =~= s);
        assert(left_after(s, j + k) =~= s);
        assert(handed_out(s, j) + handed_out(s, k) =~= handed_out(s, j + k));
        assert(left_after(s, k) =~= s);
    } else {
        lemma_handed_out_in_turns(s.drop_last(), (j - 1) as nat, k);
        lemma_left_after_drop_last(s, j);
        lemma_left_after_drop_last(s, j + k);
        assert((j - 1) as nat + k == (j + k - 1) as nat);
        assert(handed_out(s, j) + handed_out(left_after(s, j), k) =~= handed_out(s, j + k));
    }
}

/// Draining a request list hands out every request exactly once, the last
/// given first; any number of further calls hand out nothing more and leave
/// nothing pending.
pub proof fn lemma_drain_reverses(s: Seq<Request>, k: nat)
    ensures
        handed_out(s, s.len() + k) == s.reverse(),
        left_after(s, s.len() + k) == Seq::<Request>::empty(),
    decreases s.len(),
{
    if s.len() > 0 {
        lemma_drain_reverses(s.drop_last(), k);
        assert(handed_out(s, s.len() + k) =~= s.reverse());
    } else {
        assert(handed_out(s, s.len() + k) =~= s.reverse());
    }
}

} // verus!
