//! The intrusive queue substrate: a family of doubly linked queues threaded
//! through one link per node. A node is in at most one queue of the family;
//! it enters and leaves a queue at a known place in constant time, and the
//! links live in a table that is indexed by the nodes' handles.

use vstd::prelude::*;

verus! {

/// The link that ends a queue in either direction: no node has this handle.
pub const NIL: usize = usize::MAX;

/// The link of a node: its neighbours in the queue it is in.
#[derive(Clone, Copy, Debug)]
pub struct Link {
    /// The node behind this one, or `NIL`.
    pub next: usize,
    /// The node in front of this one, or `NIL`.
    pub prev: usize,
}

/// The head of a queue.
#[derive(Clone, Copy, Debug)]
pub struct Head {
    /// The node in front, or `NIL`.
    pub first: usize,
    /// The node at the back, or `NIL`.
    pub last: usize,
    /// The number of nodes.
    pub len: usize,
}

/// The neighbour in front of place `at` of `s`, or `NIL`.
pub open spec fn node_before(s: Seq<usize>, at: int) -> usize {
    if at > 0 {
        s[at - 1]
    } else {
        NIL
    }
}

/// The node at place `at` of `s`, or `NIL`.
pub open spec fn node_at(s: Seq<usize>, at: int) -> usize {
    if at < s.len() {
        s[at]
    } else {
        NIL
    }
}

/// The links thread the sequence `s` from the head `h`: the head names its
/// two ends and its length, each node has a link, the links of the two ends
/// end the queue, and the links of two neighbours name each other.
pub open spec fn threaded(h: Head, links: Seq<Link>, s: Seq<usize>) -> bool {
    &&& h.len == s.len()
    &&& h.first == node_at(s, 0)
    &&& h.last == node_before(s, s.len() as int)
    &&& forall|i: int| 0 <= i < s.len() ==> (#[trigger] s[i]) < links.len()
    &&& s.len() > 0 ==> links[s[0] as int].prev == NIL && links[s[s.len() - 1] as int].next == NIL
    &&& forall|i: int, j: int|
        0 <= i && j == i + 1 && j < s.len() ==> links[(#[trigger] s[i]) as int].next == (
        #[trigger] s[j]) && links[s[j] as int].prev == s[i]
}

/// Links that agree on the nodes of `s` thread `s` alike.
pub proof fn lemma_threaded_frame(h: Head, links: Seq<Link>, other: Seq<Link>, s: Seq<usize>)
    requires
        threaded(h, links, s),
        other.len() >= links.len(),
        forall|i: int| 0 <= i < s.len() ==> other[(#[trigger] s[i]) as int] == links[s[i] as int],
    ensures
        threaded(h, other, s),
{
    assert forall|i: int| 0 <= i < s.len() implies (#[trigger] s[i]) < other.len() by {
        assert(s[i] < links.len());
    }
    assert forall|i: int, j: int| 0 <= i && j == i + 1 && j < s.len() implies other[(
    #[trigger] s[i]) as int].next == (#[trigger] s[j]) && other[s[j] as int].prev == s[i] by {
        assert(links[s[i] as int].next == s[j]);
    }
    if s.len() > 0 {
        assert(other[s[0] as int] == links[s[0] as int]);
        assert(other[s[s.len() - 1] as int] == links[s[s.len() - 1] as int]);
    }
}

/// The links after node `x` was spliced in between `prev` and `before`,
/// either of which may be `NIL`.
pub open spec fn spliced_in(links: Seq<Link>, prev: usize, before: usize, x: usize) -> Seq<Link> {
    let a = links.update(x as int, Link { next: before, prev });
    let b = if prev != NIL {
        a.update(prev as int, Link { next: x, ..a[prev as int] })
    } else {
        a
    };
    if before != NIL {
        b.update(before as int, Link { prev: x, ..b[before as int] })
    } else {
        b
    }
}

/// The links after node `x` was spliced out from between its neighbours.
pub open spec fn spliced_out(links: Seq<Link>, x: usize) -> Seq<Link> {
    let prev = links[x as int].prev;
    let next = links[x as int].next;
    let a = if prev != NIL {
        links.update(prev as int, Link { next, ..links[prev as int] })
    } else {
        links
    };
    let b = if next != NIL {
        a.update(next as int, Link { prev, ..a[next as int] })
    } else {
        a
    };
    b.update(x as int, Link { next: NIL, prev: NIL })
}

/// Splicing a new node in at place `at` threads the sequence with the node
/// inserted there, and changes no link but those of the node and of its two
/// neighbours.
pub proof fn lemma_splice_in(h: Head, links: Seq<Link>, s: Seq<usize>, at: int, x: usize)
    requires
        threaded(h, links, s),
        links.len() <= usize::MAX,
        s.no_duplicates(),
        !s.contains(x),
        x < links.len(),
        0 <= at <= s.len(),
    ensures
        threaded(
            Head {
                first: if at == 0 {
                    x
                } else {
                    h.first
                },
                last: if at == s.len() {
                    x
                } else {
                    h.last
                },
                len: (h.len + 1) as usize,
            },
            spliced_in(links, node_before(s, at), node_at(s, at), x),
            s.insert(at, x),
        ),
        s.len() < links.len(),
        spliced_in(links, node_before(s, at), node_at(s, at), x).len() == links.len(),
        forall|k: int|
            0 <= k < links.len() && k != x && k != node_before(s, at) && k != node_at(s, at)
                ==> #[trigger] spliced_in(links, node_before(s, at), node_at(s, at), x)[k]
                == links[k],
{
    let prev = node_before(s, at);
    let before = node_at(s, at);
    let out = spliced_in(links, prev, before, x);
    let t = s.insert(at, x);
    lemma_distinct_below(s, links.len() as int, x);
    if at > 0 {
        assert(s[at - 1] < links.len());
        assert(s.contains(s[at - 1]));
    }
    if at < s.len() {
        assert(s[at] < links.len());
        assert(s.contains(s[at]));
    }
    if at > 0 && at < s.len() {
        assert(s[at - 1] != s[at]);
        assert(links[s[at - 1] as int].next == s[at]);
    }
    assert forall|j: int| 0 <= j < t.len() implies (#[trigger] t[j]) < out.len() by {
        if j < at {
            assert(t[j] == s[j]);
            assert(s[j] < links.len());
        } else if j > at {
            assert(t[j] == s[j - 1]);
            assert(s[j - 1] < links.len());
        }
    }
    assert forall|i: int, j: int| 0 <= i && j == i + 1 && j < t.len() implies out[(
    #[trigger] t[i]) as int].next == (#[trigger] t[j]) && out[t[j] as int].prev == t[i] by {
        if j < at {
            assert(t[i] == s[i] && t[j] == s[j]);
            assert(links[s[i] as int].next == s[j]);
            assert(s.contains(s[i]) && s.contains(s[j]));
            assert(s[i] < links.len() && s[j] < links.len());
            assert(s[i] != s[at - 1]);
            if at < s.len() {
                assert(s[i] != s[at]);
                assert(s[j] != s[at]);
            }
        } else if j == at {
            assert(t[i] == s[at - 1]);
        } else if i == at {
            assert(t[j] == s[at]);
        } else {
            assert(t[i] == s[i - 1] && t[j] == s[j - 1]);
            assert(links[s[i - 1] as int].next == s[j - 1]);
            assert(s.contains(s[i - 1]) && s.contains(s[j - 1]));
            assert(s[i - 1] < links.len() && s[j - 1] < links.len());
            assert(s[j - 1] != s[at]);
            if at > 0 {
                assert(s[i - 1] != s[at - 1]);
                assert(s[j - 1] != s[at - 1]);
            }
        }
    }
    if at > 0 {
        assert(t[0] == s[0]);
        assert(s[0] < links.len());
        assert(s.contains(s[0]));
        if at < s.len() {
            assert(s[0] != s[at]);
        }
    }
    if at < s.len() {
        assert(t[t.len() - 1] == s[s.len() - 1]);
        assert(s[s.len() - 1] < links.len());
        assert(s.contains(s[s.len() - 1]));
        if at > 0 {
            assert(s[s.len() - 1] != s[at - 1]);
        }
    }
}

/// Splicing the node at place `at` out threads the sequence without it, and
/// changes no link but those of the node and of its two neighbours.
pub proof fn lemma_splice_out(h: Head, links: Seq<Link>, s: Seq<usize>, at: int)
    requires
        threaded(h, links, s),
        links.len() <= usize::MAX,
        s.no_duplicates(),
        0 <= at < s.len(),
    ensures
        threaded(
            Head {
                first: if at == 0 {
                    links[s[at] as int].next
                } else {
                    h.first
                },
                last: if at == s.len() - 1 {
                    links[s[at] as int].prev
                } else {
                    h.last
                },
                len: (h.len - 1) as usize,
            },
            spliced_out(links, s[at]),
            s.remove(at),
        ),
        links[s[at] as int].prev == node_before(s, at),
        links[s[at] as int].next == node_at(s, at + 1),
        spliced_out(links, s[at]).len() == links.len(),
        forall|k: int|
            0 <= k < links.len() && k != s[at] && k != node_before(s, at) && k != node_at(
                s,
                at + 1,
            ) ==> #[trigger] spliced_out(links, s[at])[k] == links[k],
{
    let x = s[at];
    let out = spliced_out(links, x);
    let t = s.remove(at);
    assert(s[at] < links.len());
    if at + 1 < s.len() {
        assert(s[at + 1] < links.len());
        assert(s[at + 1] != s[at]);
        assert(links[s[at] as int].next == s[at + 1]);
    }
    if at > 0 {
        assert(s[at - 1] < links.len());
        assert(s[at - 1] != s[at]);
        assert(links[s[at - 1] as int].next == s[at]);
    }
    if at > 0 && at + 1 < s.len() {
        assert(s[at - 1] != s[at + 1]);
    }
    assert forall|j: int| 0 <= j < t.len() implies (#[trigger] t[j]) < out.len() by {
        if j < at {
            assert(t[j] == s[j]);
            assert(s[j] < links.len());
        } else {
            assert(t[j] == s[j + 1]);
            assert(s[j + 1] < links.len());
        }
    }
    assert forall|i: int, j: int| 0 <= i && j == i + 1 && j < t.len() implies out[(
    #[trigger] t[i]) as int].next == (#[trigger] t[j]) && out[t[j] as int].prev == t[i] by {
        if j < at {
            assert(t[i] == s[i] && t[j] == s[j]);
            assert(links[s[i] as int].next == s[j]);
            assert(s[i] < links.len() && s[j] < links.len());
            assert(s[i] != s[at] && s[j] != s[at]);
            assert(s[i] != s[at - 1]);
            if at + 1 < s.len() {
                assert(s[i] != s[at + 1] && s[j] != s[at + 1]);
            }
        } else if j == at {
            assert(t[i] == s[at - 1] && t[j] == s[at + 1]);
        } else {
            assert(t[i] == s[i + 1] && t[j] == s[j + 1]);
            assert(links[s[i + 1] as int].next == s[j + 1]);
            assert(s[i + 1] < links.len() && s[j + 1] < links.len());
            assert(s[i + 1] != s[at] && s[j + 1] != s[at]);
            assert(s[j + 1] != s[at + 1]);
            if at > 0 {
                assert(s[i + 1] != s[at - 1] && s[j + 1] != s[at - 1]);
            }
        }
    }
    if t.len() > 0 {
        if at > 0 {
            assert(t[0] == s[0]);
            assert(s[0] < links.len());
            if at > 1 {
                assert(s[0] != s[at - 1]);
            }
            assert(s[0] != s[at]);
            if at + 1 < s.len() {
                assert(s[0] != s[at + 1]);
            }
        } else {
            assert(t[0] == s[1]);
        }
        if at + 1 < s.len() {
            assert(t[t.len() - 1] == s[s.len() - 1]);
            assert(s[s.len() - 1] < links.len());
            assert(s[s.len() - 1] != s[at]);
            if at + 2 < s.len() {
                assert(s[s.len() - 1] != s[at + 1]);
            }
            if at > 0 {
                assert(s[s.len() - 1] != s[at - 1]);
            }
        } else {
            assert(t[t.len() - 1] == s[at - 1]);
        }
    }
}

/// The links thread each queue of the family, no queue holds a node twice,
/// and no two queues share a node.
pub open spec fn family(heads: Seq<Head>, links: Seq<Link>, seqs: Seq<Seq<usize>>) -> bool {
    &&& seqs.len() == heads.len()
    &&& links.len() <= usize::MAX
    &&& forall|q: int| 0 <= q < seqs.len() ==> threaded(heads[q], links, #[trigger] seqs[q])
    &&& forall|q: int| 0 <= q < seqs.len() ==> (#[trigger] seqs[q]).no_duplicates()
    &&& forall|q1: int, q2: int, i: int, j: int|
        0 <= q1 < seqs.len() && 0 <= q2 < seqs.len() && q1 != q2 && 0 <= i < seqs[q1].len() && 0
            <= j < seqs[q2].len() ==> (#[trigger] seqs[q1][i]) != (#[trigger] seqs[q2][j])
}

/// A family stays one when one of its queues changes, if the queue is
/// threaded anew, every node of the new queue is a node of the old one or
/// the one node `x` that was in no queue, and the links changed only on
/// nodes of the old queue and on `x`.
pub proof fn lemma_family_step(
    heads: Seq<Head>,
    links: Seq<Link>,
    seqs: Seq<Seq<usize>>,
    q: int,
    x: usize,
    head: Head,
    out: Seq<Link>,
    t: Seq<usize>,
)
    requires
        family(heads, links, seqs),
        0 <= q < seqs.len(),
        out.len() == links.len(),
        threaded(head, out, t),
        t.no_duplicates(),
        forall|i: int| 0 <= i < t.len() ==> (#[trigger] t[i]) == x || seqs[q].contains(t[i]),
        forall|p: int| 0 <= p < seqs.len() && p != q ==> !(#[trigger] seqs[p]).contains(x),
        forall|k: int|
            0 <= k < links.len() && k != x && !seqs[q].contains(k as usize) ==> (#[trigger] out[k])
                == links[k],
    ensures
        family(heads.update(q, head), out, seqs.update(q, t)),
{
    let heads1 = heads.update(q, head);
    let seqs1 = seqs.update(q, t);
    assert forall|p: int| 0 <= p < seqs1.len() implies threaded(
        heads1[p],
        out,
        #[trigger] seqs1[p],
    ) by {
        if p != q {
            let u = seqs[p];
            assert(threaded(heads[p], links, u));
            assert forall|k: int| 0 <= k < u.len() implies out[(#[trigger] u[k]) as int]
                == links[u[k] as int] by {
                assert(u.contains(u[k]));
                assert(u[k] < links.len());
                if seqs[q].contains(u[k]) {
                    let i = choose|i: int| 0 <= i < seqs[q].len() && seqs[q][i] == u[k];
                    assert(seqs[q][i] != seqs[p][k]);
                }
            }
            lemma_threaded_frame(heads[p], links, out, u);
        }
    }
    assert forall|q1: int, q2: int, a: int, b: int|
        0 <= q1 < seqs1.len() && 0 <= q2 < seqs1.len() && q1 != q2 && 0 <= a < seqs1[q1].len()
            && 0 <= b < seqs1[q2].len() implies (#[trigger] seqs1[q1][a]) != (
    #[trigger] seqs1[q2][b]) by {
        if q1 == q {
            let u = seqs[q2];
            assert(u.contains(u[b]));
            if t[a] != x {
                let i = choose|i: int| 0 <= i < seqs[q].len() && seqs[q][i] == t[a];
                assert(seqs[q][i] != seqs[q2][b]);
            }
        } else if q2 == q {
            let u = seqs[q1];
            assert(u.contains(u[a]));
            if t[b] != x {
                let i = choose|i: int| 0 <= i < seqs[q].len() && seqs[q][i] == t[b];
                assert(seqs[q1][a] != seqs[q][i]);
            }
        } else {
            assert(seqs[q1][a] != seqs[q2][b]);
        }
    }
}

/// A family of queues over one table of links.
pub struct Queues {
    links: Vec<Link>,
    heads: Vec<Head>,
    seqs: Ghost<Seq<Seq<usize>>>,
}

impl Queues {
    /// The queues: for each, its nodes from front to back.
    pub closed spec fn view(&self) -> Seq<Seq<usize>> {
        self.seqs@
    }

    /// The number of nodes the table has links for.
    pub closed spec fn nodes(&self) -> nat {
        self.links@.len()
    }

    /// The links thread the queues, no queue holds a node twice, and no two
    /// queues share a node.
    pub closed spec fn wf(&self) -> bool {
        family(self.heads@, self.links@, self.seqs@)
    }

    /// Node `x` is in no queue.
    pub open spec fn free(&self, x: usize) -> bool {
        forall|q: int| 0 <= q < self@.len() ==> !(#[trigger] self@[q]).contains(x)
    }

    /// Every node in a queue has a link in the table, so none is `NIL`; no
    /// queue holds a node twice.
    pub proof fn lemma_members(&self, q: int, i: int)
        requires
            self.wf(),
            0 <= q < self@.len(),
            0 <= i < self@[q].len(),
        ensures
            self@[q][i] < self.nodes(),
            self@[q][i] != NIL,
            self@[q].no_duplicates(),
    {
        assert(threaded(self.heads@[q], self.links@, self.seqs@[q]));
        assert(self.seqs@[q][i] < self.links@.len());
    }

    /// A family without nodes and without queues.
    pub fn new() -> (r: Queues)
        ensures
            r.wf(),
            r@.len() == 0,
            r.nodes() == 0,
    {
        Queues { links: Vec::new(), heads: Vec::new(), seqs: Ghost(Seq::empty()) }
    }

    /// The number of queues.
    pub fn count(&self) -> (n: usize)
        requires
            self.wf(),
        ensures
            n == self@.len(),
    {
        self.heads.len()
    }

    /// The number of nodes the table has links for.
    pub fn size(&self) -> (n: usize)
        ensures
            n == self.nodes(),
    {
        self.links.len()
    }

    /// Adds a node, in no queue; its handle is the number of nodes before.
    pub fn add_node(&mut self)
        requires
            old(self).wf(),
            old(self).nodes() < usize::MAX,
        ensures
            final(self).wf(),
            final(self)@ == old(self)@,
            final(self).nodes() == old(self).nodes() + 1,
    {
        let ghost before = self.links@;
        self.links.push(Link { next: NIL, prev: NIL });
        proof {
            assert forall|q: int| 0 <= q < self.seqs@.len() implies threaded(
                self.heads@[q],
                self.links@,
                #[trigger] self.seqs@[q],
            ) by {
                let s = self.seqs@[q];
                assert(threaded(self.heads@[q], before, s));
                assert forall|i: int| 0 <= i < s.len() implies self.links@[(#[trigger] s[i]) as int]
                    == before[s[i] as int] by {
                    assert(s[i] < before.len());
                }
                lemma_threaded_frame(self.heads@[q], before, self.links@, s);
            }
        }
    }

    /// Adds an empty queue; its handle is the number of queues before.
    pub fn add_queue(&mut self)
        requires
            old(self).wf(),
        ensures
            final(self).wf(),
            final(self)@ == old(self)@.push(Seq::empty()),
            final(self).nodes() == old(self).nodes(),
    {
        self.heads.push(Head { first: NIL, last: NIL, len: 0 });
        proof {
            self.seqs@ = self.seqs@.push(Seq::empty());
        }
    }

    /// The number of nodes in queue `q`.
    pub fn len(&self, q: usize) -> (n: usize)
        requires
            self.wf(),
            q < self@.len(),
        ensures
            n == self@[q as int].len(),
    {
        assert(threaded(self.heads@[q as int], self.links@, self.seqs@[q as int]));
        self.heads[q].len
    }

    /// The node in front of queue `q`, or `NIL` if the queue is empty.
    pub fn first(&self, q: usize) -> (x: usize)
        requires
            self.wf(),
            q < self@.len(),
        ensures
            x == node_at(self@[q as int], 0),
    {
        assert(threaded(self.heads@[q as int], self.links@, self.seqs@[q as int]));
        self.heads[q].first
    }

    /// The node behind `x`, which stands at place `i` of queue `q`; `NIL`
    /// if `x` is the last.
    pub fn next(&self, q: usize, i: Ghost<int>, x: usize) -> (y: usize)
        requires
            self.wf(),
            q < self@.len(),
            0 <= i@ < self@[q as int].len(),
            self@[q as int][i@] == x,
        ensures
            y == node_at(self@[q as int], i@ + 1),
    {
        proof {
            let s = self.seqs@[q as int];
            assert(threaded(self.heads@[q as int], self.links@, s));
            assert(s[i@] < self.links@.len());
            if i@ + 1 < s.len() {
                assert(self.links@[s[i@] as int].next == s[i@ + 1]);
            }
        }
        self.links[x].next
    }

    /// Puts node `x`, which is in no queue, in queue `q` at place `i`: in
    /// front of the node `before` that stands there, or at the back if
    /// `before` is `NIL`.
    pub fn insert(&mut self, q: usize, i: Ghost<int>, before: usize, x: usize)
        requires
            old(self).wf(),
            q < old(self)@.len(),
            x < old(self).nodes(),
            old(self).free(x),
            0 <= i@ <= old(self)@[q as int].len(),
            before == node_at(old(self)@[q as int], i@),
        ensures
            final(self).wf(),
            final(self)@ == old(self)@.update(q as int, old(self)@[q as int].insert(i@, x)),
            final(self).nodes() == old(self).nodes(),
    {
        let ghost s = self.seqs@[q as int];
        let ghost links0 = self.links@;
        let ghost seqs0 = self.seqs@;
        let ghost heads0 = self.heads@;
        let ghost at = i@;
        proof {
            assert(threaded(heads0[q as int], links0, s));
            assert(!s.contains(x));
            lemma_splice_in(heads0[q as int], links0, s, at, x);
            if at < s.len() {
                assert(s[at] < links0.len());
            }
            if at > 0 {
                assert(s[at - 1] < links0.len());
            }
            if s.len() > 0 {
                assert(s[s.len() - 1] < links0.len());
            }
        }
        let head = self.heads[q];
        let prev: usize = if before != NIL {
            self.links[before].prev
        } else {
            head.last
        };
        assert(prev == node_before(s, at));
        self.links.set(x, Link { next: before, prev });
        let mut first = head.first;
        let mut last = head.last;
        if prev != NIL {
            let mut link = self.links[prev];
            link.next = x;
            self.links.set(prev, link);
        } else {
            first = x;
        }
        if before != NIL {
            let mut link = self.links[before];
            link.prev = x;
            self.links.set(before, link);
        } else {
            last = x;
        }
        assert(self.links@ =~= spliced_in(links0, prev, before, x));
        let new_head = Head { first, last, len: head.len + 1 };
        self.heads.set(q, new_head);
        proof {
            let t = s.insert(at, x);
            self.seqs@ = seqs0.update(q as int, t);
            crate::queue::lemma_insert_members(s, at, x);
            assert forall|k: int| 0 <= k < t.len() implies (#[trigger] t[k]) == x || s.contains(
                t[k],
            ) by {
                assert(t.contains(t[k]));
            }
            assert forall|k: int|
                0 <= k < links0.len() && k != x && !s.contains(k as usize) implies (
            #[trigger] self.links@[k]) == links0[k] by {
                if at > 0 {
                    assert(s.contains(s[at - 1]));
                }
                if at < s.len() {
                    assert(s.contains(s[at]));
                }
            }
            lemma_family_step(heads0, links0, seqs0, q as int, x, new_head, self.links@, t);
        }
    }

    /// Takes node `x`, which stands at place `i` of queue `q`, out of the
    /// queue.
    pub fn remove(&mut self, q: usize, i: Ghost<int>, x: usize)
        requires
            old(self).wf(),
            q < old(self)@.len(),
            0 <= i@ < old(self)@[q as int].len(),
            old(self)@[q as int][i@] == x,
        ensures
            final(self).wf(),
            final(self)@ == old(self)@.update(q as int, old(self)@[q as int].remove(i@)),
            final(self).nodes() == old(self).nodes(),
    {
        let ghost s = self.seqs@[q as int];
        let ghost links0 = self.links@;
        let ghost seqs0 = self.seqs@;
        let ghost heads0 = self.heads@;
        let ghost at = i@;
        proof {
            assert(threaded(heads0[q as int], links0, s));
            lemma_splice_out(heads0[q as int], links0, s, at);
            assert(s[at] < links0.len());
            if at + 1 < s.len() {
                assert(s[at + 1] < links0.len());
            }
            if at > 0 {
                assert(s[at - 1] < links0.len());
            }
        }
        let head = self.heads[q];
        let link = self.links[x];
        let mut first = head.first;
        let mut last = head.last;
        if link.prev != NIL {
            let mut neighbour = self.links[link.prev];
            neighbour.next = link.next;
            self.links.set(link.prev, neighbour);
        } else {
            first = link.next;
        }
        if link.next != NIL {
            let mut neighbour = self.links[link.next];
            neighbour.prev = link.prev;
            self.links.set(link.next, neighbour);
        } else {
            last = link.prev;
        }
        self.links.set(x, Link { next: NIL, prev: NIL });
        assert(self.links@ =~= spliced_out(links0, x));
        let new_head = Head { first, last, len: head.len - 1 };
        self.heads.set(q, new_head);
        proof {
            let t = s.remove(at);
            self.seqs@ = seqs0.update(q as int, t);
            crate::queue::lemma_remove_members(s, at);
            assert forall|k: int| 0 <= k < t.len() implies (#[trigger] t[k]) == x || s.contains(
                t[k],
            ) by {
                assert(t.contains(t[k]));
            }
            assert forall|p: int| 0 <= p < seqs0.len() && p != q implies !(
            #[trigger] seqs0[p]).contains(x) by {
                if seqs0[p].contains(x) {
                    let j = choose|j: int| 0 <= j < seqs0[p].len() && seqs0[p][j] == x;
                    assert(seqs0[p][j] != seqs0[q as int][at]);
                }
            }
            assert forall|k: int|
                0 <= k < links0.len() && k != x && !s.contains(k as usize) implies (
            #[trigger] self.links@[k]) == links0[k] by {
                if at > 0 {
                    assert(s.contains(s[at - 1]));
                }
                if at + 1 < s.len() {
                    assert(s.contains(s[at + 1]));
                }
            }
            lemma_family_step(heads0, links0, seqs0, q as int, x, new_head, self.links@, t);
        }
    }

    /// The nodes of queue `q` from front to back.
    pub fn elements(&self, q: usize) -> (r: Vec<usize>)
        requires
            self.wf(),
            q < self@.len(),
        ensures
            r@ == self@[q as int],
    {
        let ghost s = self@[q as int];
        let mut r: Vec<usize> = Vec::new();
        let mut cur = self.first(q);
        let ghost mut i: int = 0;
        while cur != NIL
            invariant
                self.wf(),
                q < self@.len(),
                s == self@[q as int],
                0 <= i <= s.len(),
                cur == node_at(s, i),
                r@ == s.take(i),
            decreases s.len() - i,
        {
            r.push(cur);
            assert(s.take(i + 1) =~= s.take(i).push(s[i]));
            cur = self.next(q, Ghost(i), cur);
            proof {
                i = i + 1;
            }
        }
        proof {
            if i < s.len() {
                self.lemma_members(q as int, i);
            }
            assert(s.take(s.len() as int) =~= s);
        }
        r
    }
}

/// A sequence of distinct handles below `bound` that leaves out a handle
/// below `bound` is shorter than `bound`.
pub proof fn lemma_distinct_below(s: Seq<usize>, bound: int, x: usize)
    requires
        s.no_duplicates(),
        forall|i: int| 0 <= i < s.len() ==> (#[trigger] s[i]) < bound,
        x < bound,
        bound <= usize::MAX,
        !s.contains(x),
    ensures
        s.len() < bound,
{
    let all = Set::new(|v: usize| v < bound);
    let members = s.to_set();
    vstd::seq_lib::seq_to_set_is_finite(s);
    s.unique_seq_to_set();
    lemma_handles_below(bound as nat);
    assert(members.subset_of(all.remove(x))) by {
        assert forall|v: usize| members.contains(v) implies all.remove(x).contains(v) by {
            let i = choose|i: int| 0 <= i < s.len() && s[i] == v;
            assert(s[i] < bound);
        }
    }
    vstd::set_lib::lemma_len_subset(members, all.remove(x));
}

/// The handles below `bound` are `bound` in number.
pub proof fn lemma_handles_below(bound: nat)
    requires
        bound <= usize::MAX + 1,
    ensures
        Set::new(|v: usize| v < bound).finite(),
        Set::new(|v: usize| v < bound).len() == bound,
    decreases bound,
{
    let all = Set::new(|v: usize| v < bound);
    if bound == 0 {
        assert(all =~= Set::empty());
    } else {
        let rest = Set::new(|v: usize| v < bound - 1);
        lemma_handles_below((bound - 1) as nat);
        assert(all =~= rest.insert((bound - 1) as usize));
    }
}

} // verus!
