//! Dispatch of cross-host crawl work.
//!
//! When a discovered link belongs to a different host than the page
//! that referenced it, the crawler does not fetch it directly: it
//! publishes the host's root URL on a shared bus, and some worker
//! picks it up.  The bus delivers at least once, so a consumer may see
//! the same host more than once and must deduplicate locally before
//! starting a crawl: [`DispatchConsumer`] keeps the set of hosts
//! already seen and admits each host exactly once.

use vstd::prelude::*;
use vstd::string::StringExecFns;

verus! {

/// One consumption step: whether a crawl is started for `host`, and
/// the seen-set afterwards.  A host is admitted exactly when it was
/// never seen before, and is remembered from its first sight on.
pub open spec fn spec_accept(seen: Seq<Seq<char>>, host: Seq<char>) -> (bool, Seq<Seq<char>>) {
    if seen.contains(host) {
        (false, seen)
    } else {
        (true, seen.push(host))
    }
}

/// The consumer side of the dispatch bus: a seen-set of hosts that
/// makes consumption idempotent under at-least-once delivery.
pub struct DispatchConsumer {
    seen: Vec<String>,
}

impl DispatchConsumer {
    /// The hosts this consumer has already accepted.
    pub closed spec fn seen_hosts(self) -> Seq<Seq<char>> {
        self.seen.deep_view()
    }

    /// A consumer that has seen nothing yet.
    pub fn new() -> (r: DispatchConsumer)
        ensures
            r.seen_hosts() == Seq::<Seq<char>>::empty(),
    {
        let r = DispatchConsumer { seen: Vec::new() };
        proof {
            assert(r.seen_hosts() =~= Seq::<Seq<char>>::empty());
        }
        r
    }

    /// Consume one message: returns whether a crawl must be started
    /// for `host`, remembering the host either way.
    pub fn accept(&mut self, host: &String) -> (r: bool)
        ensures
            r == spec_accept(old(self).seen_hosts(), host@).0,
            final(self).seen_hosts() == spec_accept(old(self).seen_hosts(), host@).1,
    {
        let ghost dv = self.seen.deep_view();
        let mut i: usize = 0;
        while i < self.seen.len()
            invariant
                i <= self.seen@.len(),
                dv == self.seen.deep_view(),
                forall|j: int| 0 <= j < i ==> #[trigger] dv[j] != host@,
            decreases self.seen@.len() - i,
        {
            if self.seen[i] == *host {
                proof {
                    assert(dv[i as int] == host@);
                    assert(dv.contains(host@));
                }
                return false;
            }
            i += 1;
        }
        proof {
            assert(!dv.contains(host@));
        }
        let ghost before = self.seen.deep_view();
        self.seen.push(host.clone());
        proof {
            assert(self.seen.deep_view() =~= before.push(host@));
        }
        true
    }
}

/// Idempotent-consumption law: however a host was consumed once, a
/// second message for the same host never starts another crawl.
pub proof fn lemma_dispatch_dedup(seen: Seq<Seq<char>>, host: Seq<char>)
    ensures
        !spec_accept(spec_accept(seen, host).1, host).0,
{
    let after = spec_accept(seen, host).1;
    if seen.contains(host) {
    } else {
        assert(after[after.len() - 1] == host);
        assert(after.contains(host));
    }
}

/// The message published for a newly discovered host: the host's
/// HTTPS root.
pub fn dispatch_message(host: &str) -> (r: String)
    ensures
        r@ == "https://"@ + host@,
{
    "https://".to_owned().concat(host)
}

} // verus!
