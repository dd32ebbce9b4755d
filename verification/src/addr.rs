//! Addresses of peers, and sets of them.

use vstd::prelude::*;

verus! {

/// An IPv4 address with a port.
#[derive(Clone, Copy, Debug, PartialEq, Eq, Structural)]
pub struct SocketAddrV4 {
    pub ip: u32,
    pub port: u16,
}

/// An IPv6 address with a port.
#[derive(Clone, Copy, Debug, PartialEq, Eq, Structural)]
pub struct SocketAddrV6 {
    pub ip: u128,
    pub port: u16,
    pub flowinfo: u32,
    pub scope_id: u32,
}

/// An internet address with a port.
#[derive(Clone, Copy, Debug, PartialEq, Eq, Structural)]
pub enum SocketAddr {
    V4(SocketAddrV4),
    V6(SocketAddrV6),
}

/// A set of addresses.
#[derive(Debug)]
pub struct AddrSet {
    addrs: Vec<SocketAddr>,
}

impl View for AddrSet {
    type V = Set<SocketAddr>;

    closed spec fn view(&self) -> Set<SocketAddr> {
        self.addrs@.to_set()
    }
}

impl AddrSet {
    #[verifier::type_invariant]
    spec fn addrs_distinct(self) -> bool {
        self.addrs@.no_duplicates()
    }

    /// The empty set.
    pub fn new() -> (res: AddrSet)
        ensures
            res@ == Set::<SocketAddr>::empty(),
    {
        let res = AddrSet { addrs: Vec::new() };
        assert(res@ =~= Set::<SocketAddr>::empty());
        res
    }

    /// Where `addr` stands, if it does.
    fn position(&self, addr: &SocketAddr) -> (res: Option<usize>)
        ensures
            match res {
                Some(i) => i < self.addrs@.len() && self.addrs@[i as int] == *addr,
                None => !self@.contains(*addr),
            },
    {
        let mut i: usize = 0;
        while i < self.addrs.len()
            invariant
                i <= self.addrs@.len(),
                forall|j: int| 0 <= j < i ==> #[trigger] self.addrs@[j] != *addr,
            decreases self.addrs@.len() - i,
        {
            if self.addrs[i] == *addr {
                return Some(i);
            }
            i = i + 1;
        }
        None
    }

    /// Whether `addr` is in the set.
    pub fn contains(&self, addr: &SocketAddr) -> (res: bool)
        ensures
            res == self@.contains(*addr),
    {
        match self.position(addr) {
            Some(i) => {
                assert(self.addrs@.contains(self.addrs@[i as int]));
                true
            },
            None => false,
        }
    }

    /// Puts `addr` in the set; returns whether it was not there before.
    pub fn insert(&mut self, addr: SocketAddr) -> (res: bool)
        ensures
            final(self)@ == old(self)@.insert(addr),
            res == !old(self)@.contains(addr),
    {
        proof {
            use_type_invariant(&*self);
        }
        let ghost before = self.addrs@;
        if self.contains(&addr) {
            assert(self@ =~= old(self)@.insert(addr));
            return false;
        }
        let mut addrs: Vec<SocketAddr> = Vec::new();
        std::mem::swap(&mut addrs, &mut self.addrs);
        addrs.push(addr);
        self.addrs = addrs;
        proof {
            let after = self.addrs@;
            assert(after[before.len() as int] == addr);
            assert forall|a: SocketAddr| before.contains(a) implies after.contains(a) by {
                assert(after[before.index_of(a)] == a);
            }
            assert(self@ =~= old(self)@.insert(addr));
        }
        true
    }

    /// Takes `addr` out of the set; returns whether it was there.
    pub fn remove(&mut self, addr: &SocketAddr) -> (res: bool)
        ensures
            final(self)@ == old(self)@.remove(*addr),
            res == old(self)@.contains(*addr),
    {
        proof {
            use_type_invariant(&*self);
        }
        let ghost before = self.addrs@;
        match self.position(addr) {
            Some(i) => {
                let mut addrs: Vec<SocketAddr> = Vec::new();
                std::mem::swap(&mut addrs, &mut self.addrs);
                let removed = addrs.remove(i);
                self.addrs = addrs;
                proof {
                    let after = self.addrs@;
                    assert(before.contains(before[i as int]));
                    assert forall|a: SocketAddr| before.contains(a) && a != *addr implies after.contains(
                        a,
                    ) by {
                        let k = before.index_of(a);
                        assert(after[if k < i { k } else { k - 1 }] == a);
                    }
                    assert(self@ =~= old(self)@.remove(*addr));
                }
                true
            },
            None => {
                assert(self@ =~= old(self)@.remove(*addr));
                false
            },
        }
    }
}

} // verus!
