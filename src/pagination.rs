//! Decisions of the paginated retrieval of one account's history. The caller
//! performs each requested fetch and reports what came back.
use vstd::prelude::*;

verus! {

/// What one fetched page reported.
#[derive(Clone, Copy, Debug, PartialEq, Eq, Structural)]
pub struct PageReply {
    /// Number of transactions in the page.
    pub count: u16,
    /// The page size that the service echoed back.
    pub limit: u16,
    /// Id of the last transaction of the page, if it held any.
    pub last_id: Option<u64>,
}

/// The next fetch to perform: at most `limit` transactions, older than
/// `cursor` when there is one.
#[derive(Clone, Copy, Debug, PartialEq, Eq, Structural)]
pub struct PageRequest {
    pub limit: u16,
    pub cursor: Option<u64>,
}

/// Progress of the retrieval for one account.
#[derive(Clone, Copy, Debug, PartialEq, Eq, Structural)]
pub struct Pagination {
    pub limit: u16,
    pub cursor: Option<u64>,
    pub finished: bool,
}

/// A full page means that more data may follow.
pub fn has_more(count: u16, limit: u16) -> (r: bool)
    ensures
        r == (count == limit),
{
    count == limit
}

/// Whether retrieval goes on after `r`: the page was full and gave a cursor.
pub open spec fn continues(r: PageReply) -> bool {
    r.count == r.limit && r.last_id is Some
}

/// The request that `p` asks for next, if any.
pub open spec fn pending(p: Pagination) -> Option<PageRequest> {
    if p.finished {
        None
    } else {
        Some(PageRequest { limit: p.limit, cursor: p.cursor })
    }
}

/// The progress after the reply `r`.
pub open spec fn after_reply(p: Pagination, r: PageReply) -> Pagination {
    if p.finished {
        p
    } else if continues(r) {
        Pagination { cursor: r.last_id, ..p }
    } else {
        Pagination { finished: true, ..p }
    }
}

/// The progress after the replies `rs`, in order.
pub open spec fn after_replies(p: Pagination, rs: Seq<PageReply>) -> Pagination
    decreases rs.len(),
{
    if rs.len() == 0 {
        p
    } else {
        after_reply(after_replies(p, rs.drop_last()), rs.last())
    }
}

impl Pagination {
    /// Retrieval that starts from the most recent transactions.
    pub fn new(limit: u16) -> (r: Pagination)
        ensures
            r == (Pagination { limit, cursor: None, finished: false }),
    {
        Pagination { limit, cursor: None, finished: false }
    }

    /// The fetch to perform next, or `None` once retrieval is over.
    pub fn next_request(&self) -> (r: Option<PageRequest>)
        ensures
            r == pending(*self),
    {
        if self.finished {
            None
        } else {
            Some(PageRequest { limit: self.limit, cursor: self.cursor })
        }
    }

    /// Takes the reply to the last request into account; returns whether
    /// another request follows. A short page ends retrieval, and so does a
    /// full page without transactions, since it gives no cursor.
    pub fn record(&mut self, reply: PageReply) -> (more: bool)
        ensures
            *final(self) == after_reply(*old(self), reply),
            more == !final(self).finished,
    {
        if self.finished {
            return false;
        }
        if has_more(reply.count, reply.limit) {
            match reply.last_id {
                Some(id) => {
                    self.cursor = Some(id);
                    return true;
                },
                None => {},
            }
        }
        self.finished = true;
        false
    }
}

proof fn lemma_full_pages(p: Pagination, rs: Seq<PageReply>, i: int)
    requires
        !p.finished,
        0 <= i <= rs.len(),
        forall|j: int| 0 <= j < i ==> continues(#[trigger] rs[j]),
    ensures
        after_replies(p, rs.take(i)) == (Pagination {
            limit: p.limit,
            cursor: if i == 0 { p.cursor } else { rs[i - 1].last_id },
            finished: false,
        }),
    decreases i,
{
    if i > 0 {
        lemma_full_pages(p, rs, i - 1);
        assert(rs.take(i).drop_last() =~= rs.take(i - 1));
        assert(continues(rs[i - 1]));
    }
}

/// When the first `n - 1` replies are full pages and the `n`-th is short,
/// exactly `n` fetches are requested: one before each reply, each after the
/// first from the id that ended the page before it, and none after the
/// `n`-th, whose continuation signal is off.
pub proof fn lemma_stops_after_short_page(p: Pagination, rs: Seq<PageReply>, n: int)
    requires
        !p.finished,
        1 <= n <= rs.len(),
        forall|j: int| 0 <= j < n - 1 ==> (#[trigger] rs[j]).count == rs[j].limit && rs[j].last_id is Some,
        rs[n - 1].count < rs[n - 1].limit,
    ensures
        forall|i: int| 0 <= i < n ==> #[trigger] pending(after_replies(p, rs.take(i))) == Some(PageRequest {
            limit: p.limit,
            cursor: if i == 0 { p.cursor } else { rs[i - 1].last_id },
        }),
        pending(after_replies(p, rs.take(n))) == None::<PageRequest>,
        rs[n - 1].count != rs[n - 1].limit,
{
    assert forall|i: int| 0 <= i < n implies #[trigger] pending(after_replies(p, rs.take(i))) == Some(PageRequest {
        limit: p.limit,
        cursor: if i == 0 { p.cursor } else { rs[i - 1].last_id },
    }) by {
        assert forall|j: int| 0 <= j < i implies continues(#[trigger] rs[j]) by {
            assert(rs[j].count == rs[j].limit && rs[j].last_id is Some);
        }
        lemma_full_pages(p, rs, i);
    }
    assert forall|j: int| 0 <= j < n - 1 implies continues(#[trigger] rs[j]) by {
        assert(rs[j].count == rs[j].limit && rs[j].last_id is Some);
    }
    lemma_full_pages(p, rs, n - 1);
    assert(rs.take(n).drop_last() =~= rs.take(n - 1));
}

} // verus!
