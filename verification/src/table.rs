//! The set of CIDR ranges that a peer may use, with longest-prefix lookup.

use vstd::prelude::*;
use crate::addr::IpAddress;
use crate::allowed_ip::AllowedIP;

verus! {

/// Whether some range of `ranges` holds `addr`.
pub open spec fn covered(ranges: Seq<AllowedIP>, addr: IpAddress) -> bool {
    exists|i: int| 0 <= i < ranges.len() && (#[trigger] ranges[i]).spec_contains(addr)
}

/// Whether `table` lists ranges in network form, none of them twice.
pub open spec fn distinct_networks(table: Seq<AllowedIP>) -> bool {
    &&& forall|i: int| 0 <= i < table.len() ==> (#[trigger] table[i]).is_network()
    &&& forall|i: int, j: int| 0 <= i < j < table.len() ==> table[i] != table[j]
}

/// `table` with `range` added: the network form of `range` goes to the end
/// unless it is listed already.
pub open spec fn with_range(table: Seq<AllowedIP>, range: AllowedIP) -> Seq<AllowedIP> {
    if table.contains(range.spec_network()) {
        table
    } else {
        table.push(range.spec_network())
    }
}

/// The table that the configured `ranges` make: each range in network form,
/// once, in the order in which it first occurs.
pub open spec fn table_of(ranges: Seq<AllowedIP>) -> Seq<AllowedIP>
    decreases ranges.len(),
{
    if ranges.len() == 0 {
        Seq::empty()
    } else {
        with_range(table_of(ranges.drop_last()), ranges.last())
    }
}

/// Whether `best` is the longest range of `table` that holds `addr`.
pub open spec fn longest_match(table: Seq<AllowedIP>, addr: IpAddress, best: AllowedIP) -> bool {
    &&& table.contains(best)
    &&& best.spec_contains(addr)
    &&& forall|i: int|
        0 <= i < table.len() && (#[trigger] table[i]).spec_contains(addr) ==> table[i].cidr
            <= best.cidr
}

/// Adding a range keeps a table free of repetitions, adds the addresses of
/// that range to those that the table covers, and no others.
pub proof fn lemma_with_range(table: Seq<AllowedIP>, range: AllowedIP, addr: IpAddress)
    ensures
        distinct_networks(table) ==> distinct_networks(with_range(table, range)),
        covered(with_range(table, range), addr) <==> covered(table, addr) || range.spec_contains(
            addr,
        ),
        with_range(table, range).contains(range.spec_network()),
        forall|e: AllowedIP| table.contains(e) ==> with_range(table, range).contains(e),
        forall|e: AllowedIP|
            with_range(table, range).contains(e) ==> table.contains(e) || e
                == range.spec_network(),
{
    let net = range.spec_network();
    let next = with_range(table, range);
    range.lemma_network(addr);
    if table.contains(net) {
        let k = choose|k: int| 0 <= k < table.len() && table[k] == net;
        if range.spec_contains(addr) {
            assert(table[k].spec_contains(addr));
        }
    } else {
        assert(next[table.len() as int] == net);
        assert forall|e: AllowedIP| table.contains(e) implies next.contains(e) by {
            let k = choose|k: int| 0 <= k < table.len() && table[k] == e;
            assert(next[k] == e);
        }
        if covered(table, addr) {
            let k = choose|k: int| 0 <= k < table.len() && (#[trigger] table[k]).spec_contains(addr);
            assert(next[k].spec_contains(addr));
        }
        if range.spec_contains(addr) {
            assert(next[table.len() as int].spec_contains(addr));
        }
        if covered(next, addr) {
            let k = choose|k: int| 0 <= k < next.len() && (#[trigger] next[k]).spec_contains(addr);
            if k < table.len() {
                assert(table[k].spec_contains(addr));
            }
        }
        if distinct_networks(table) {
            assert forall|i: int| 0 <= i < next.len() implies (#[trigger] next[i]).is_network() by {
                if i < table.len() {
                    assert(table[i].is_network());
                }
            }
            assert forall|i: int, j: int| 0 <= i < j < next.len() implies next[i] != next[j] by {
                if j < table.len() {
                    assert(table[i] != table[j]);
                } else {
                    assert(table.contains(table[i]));
                }
            }
        }
        assert forall|e: AllowedIP| next.contains(e) implies table.contains(e) || e == net by {
            let k = choose|k: int| 0 <= k < next.len() && next[k] == e;
            if k < table.len() {
                assert(table[k] == e);
            }
        }
    }
}

/// The table of a configuration lists every configured range, in network
/// form, exactly once, and nothing else; so it covers the addresses that the
/// configured ranges hold, and no others.
pub proof fn lemma_table_of(ranges: Seq<AllowedIP>)
    ensures
        distinct_networks(table_of(ranges)),
        forall|i: int|
            0 <= i < ranges.len() ==> table_of(ranges).contains(
                (#[trigger] ranges[i]).spec_network(),
            ),
        forall|e: AllowedIP|
            table_of(ranges).contains(e) ==> exists|i: int|
                0 <= i < ranges.len() && e == (#[trigger] ranges[i]).spec_network(),
        forall|addr: IpAddress| covered(table_of(ranges), addr) <==> covered(ranges, addr),
        (forall|i: int| 0 <= i < ranges.len() ==> (#[trigger] ranges[i]).wf()) ==> forall|
            k: int,
        |
            0 <= k < table_of(ranges).len() ==> (#[trigger] table_of(ranges)[k]).wf(),
    decreases ranges.len(),
{
    let table = table_of(ranges);
    if ranges.len() > 0 {
        let front = ranges.drop_last();
        let last = ranges.last();
        let before = table_of(front);
        lemma_table_of(front);
        assert(table == with_range(before, last));
        assert forall|i: int| 0 <= i < ranges.len() implies table.contains(
            (#[trigger] ranges[i]).spec_network(),
        ) by {
            lemma_with_range(before, last, last.addr);
            if i < front.len() {
                assert(front[i] == ranges[i]);
                assert(before.contains(front[i].spec_network()));
            }
        }
        assert forall|e: AllowedIP| table.contains(e) implies exists|i: int|
            0 <= i < ranges.len() && e == (#[trigger] ranges[i]).spec_network() by {
            lemma_with_range(before, last, last.addr);
            if before.contains(e) {
                let i = choose|i: int|
                    0 <= i < front.len() && e == (#[trigger] front[i]).spec_network();
                assert(ranges[i] == front[i]);
            } else {
                assert(e == ranges[ranges.len() - 1].spec_network());
            }
        }
        assert forall|addr: IpAddress| covered(table, addr) <==> covered(ranges, addr) by {
            lemma_with_range(before, last, addr);
            if covered(front, addr) {
                let i = choose|i: int|
                    0 <= i < front.len() && (#[trigger] front[i]).spec_contains(addr);
                assert(ranges[i].spec_contains(addr));
            }
            if last.spec_contains(addr) {
                assert(ranges[ranges.len() - 1].spec_contains(addr));
            }
            if covered(ranges, addr) {
                let i = choose|i: int|
                    0 <= i < ranges.len() && (#[trigger] ranges[i]).spec_contains(addr);
                if i < front.len() {
                    assert(front[i].spec_contains(addr));
                }
            }
        }
        lemma_with_range(before, last, last.addr);
        if forall|i: int| 0 <= i < ranges.len() ==> (#[trigger] ranges[i]).wf() {
            assert forall|k: int| 0 <= k < table.len() implies (#[trigger] table[k]).wf() by {
                assert(table.contains(table[k]));
                let i = choose|i: int|
                    0 <= i < ranges.len() && table[k] == (#[trigger] ranges[i]).spec_network();
                ranges[i].lemma_network(ranges[i].addr);
            }
        }
    }
}

/// A table without repetitions has at most one longest match for an address.
pub proof fn lemma_longest_match_unique(
    table: Seq<AllowedIP>,
    addr: IpAddress,
    a: AllowedIP,
    b: AllowedIP,
)
    requires
        distinct_networks(table),
        longest_match(table, addr, a),
        longest_match(table, addr, b),
    ensures
        a == b,
{
    let i = choose|i: int| 0 <= i < table.len() && table[i] == a;
    let j = choose|j: int| 0 <= j < table.len() && table[j] == b;
    assert(table[i].cidr <= b.cidr);
    assert(table[j].cidr <= a.cidr);
    assert(table[i].is_network() && table[j].is_network());
    a.lemma_network_unique(b, addr);
}

/// The ranges that a peer may use.
///
/// Every range is kept in network form and once only, in the order in which
/// it was first configured.
#[derive(Debug)]
pub struct AllowedIps {
    entries: Vec<AllowedIP>,
}

impl View for AllowedIps {
    type V = Seq<AllowedIP>;

    closed spec fn view(&self) -> Seq<AllowedIP> {
        self.entries@
    }
}

impl AllowedIps {
    /// Ranges are kept in network form, none twice.
    #[verifier::type_invariant]
    spec fn inv(self) -> bool {
        distinct_networks(self.entries@)
    }

    /// The table of the configured `ranges`.
    pub fn from_ranges(ranges: &[AllowedIP]) -> (table: AllowedIps)
        ensures
            table@ == table_of(ranges@),
    {
        let mut entries: Vec<AllowedIP> = Vec::new();
        let mut i: usize = 0;
        assert(ranges@.take(0) =~= Seq::<AllowedIP>::empty());
        while i < ranges.len()
            invariant
                i <= ranges@.len(),
                entries@ == table_of(ranges@.take(i as int)),
            decreases ranges@.len() - i,
        {
            let net = ranges[i].network();
            proof {
                let seen = ranges@.take(i + 1);
                assert(seen.drop_last() =~= ranges@.take(i as int));
                assert(seen.last() == ranges@[i as int]);
            }
            if !listed(&entries, net) {
                entries.push(net);
            }
            i += 1;
        }
        proof {
            assert(ranges@.take(ranges@.len() as int) =~= ranges@);
            lemma_table_of(ranges@);
        }
        AllowedIps { entries }
    }

    /// The longest range that holds `addr`, if any range does.
    pub fn find(&self, addr: IpAddress) -> (r: Option<AllowedIP>)
        ensures
            match r {
                Some(best) => longest_match(self@, addr, best),
                None => !covered(self@, addr),
            },
            distinct_networks(self@),
    {
        proof {
            use_type_invariant(self);
        }
        let mut best: Option<AllowedIP> = None;
        let mut i: usize = 0;
        while i < self.entries.len()
            invariant
                i <= self.entries@.len(),
                match best {
                    Some(b) => longest_match(self.entries@.take(i as int), addr, b),
                    None => !covered(self.entries@.take(i as int), addr),
                },
            decreases self.entries@.len() - i,
        {
            let e = self.entries[i];
            let ghost seen = self.entries@.take(i as int);
            let ghost next = self.entries@.take(i + 1);
            proof {
                assert(next.drop_last() =~= seen);
                assert(next[i as int] == e);
                assert forall|k: int| 0 <= k < seen.len() implies seen[k] == next[k] by {}
            }
            let better = e.contains(addr) && match best {
                Some(b) => e.cidr > b.cidr,
                None => true,
            };
            if better {
                proof {
                    assert forall|k: int|
                        0 <= k < next.len() && (#[trigger] next[k]).spec_contains(
                            addr,
                        ) implies next[k].cidr <= e.cidr by {
                        if k < seen.len() {
                            assert(seen[k].spec_contains(addr));
                        }
                    }
                }
                best = Some(e);
            } else {
                proof {
                    match best {
                        Some(b) => {
                            let at = choose|at: int| 0 <= at < seen.len() && seen[at] == b;
                            assert(next[at] == b);
                            assert forall|k: int|
                                0 <= k < next.len() && (#[trigger] next[k]).spec_contains(
                                    addr,
                                ) implies next[k].cidr <= b.cidr by {
                                if k < seen.len() {
                                    assert(seen[k].spec_contains(addr));
                                }
                            }
                        },
                        None => {
                            if covered(next, addr) {
                                let k = choose|k: int|
                                    0 <= k < next.len() && (#[trigger] next[k]).spec_contains(
                                        addr,
                                    );
                                if k < seen.len() {
                                    assert(seen[k].spec_contains(addr));
                                }
                            }
                        },
                    }
                }
            }
            i += 1;
        }
        proof {
            assert(self.entries@.take(self.entries@.len() as int) =~= self.entries@);
        }
        best
    }

    /// The ranges of the table, in its order.
    pub fn ranges(&self) -> (r: Vec<AllowedIP>)
        ensures
            r@ == self@,
            distinct_networks(self@),
    {
        proof {
            use_type_invariant(self);
        }
        self.entries.clone()
    }

    /// The number of ranges in the table.
    pub fn len(&self) -> (n: usize)
        ensures
            n == self@.len(),
    {
        self.entries.len()
    }
}

/// Whether `range` is one of `entries`.
fn listed(entries: &Vec<AllowedIP>, range: AllowedIP) -> (b: bool)
    ensures
        b == entries@.contains(range),
{
    let mut i: usize = 0;
    while i < entries.len()
        invariant
            i <= entries@.len(),
            forall|k: int| 0 <= k < i ==> entries@[k] != range,
        decreases entries@.len() - i,
    {
        if entries[i] == range {
            return true;
        }
        i += 1;
    }
    false
}

} // verus!
