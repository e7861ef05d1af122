use vstd::prelude::*;
use crate::toxic::{
    toxics_after, update_toxics, NotFoundError, Toxic, ToxicEvent, ToxicKind, Toxics,
};

verus! {

/// The address of a connected client: its family, its IP address as a
/// number (32 bits for IPv4, 128 for IPv6), its port, and the IPv6 scope id
/// (0 for IPv4).
#[derive(Debug, Clone, Copy, PartialEq, Eq, Structural)]
pub struct ClientAddr {
    pub v6: bool,
    pub ip: u128,
    pub port: u16,
    pub scope_id: u32,
}

/// A client with this address is already connected.
#[derive(Debug, Clone, Copy, PartialEq, Eq, Structural)]
pub struct AlreadyExistsError;

/// The two links of one connection, `L` being the runtime link, and the
/// connection-wide state `H` of the stateful toxics, kept across rebuilds.
#[derive(Debug)]
pub struct Links<L, H> {
    /// The link that carries traffic from the client to the upstream service.
    pub upstream: L,
    /// The link that carries traffic from the upstream service to the client.
    pub client: L,
    /// State of the stateful toxics by toxic name, when some toxic needs it.
    pub state_holder: Option<H>,
}

/// The links of a connection after a rebuild with new runtime links.
pub open spec fn rebuilt_links<L, H>(old: Links<L, H>, upstream: L, client: L) -> Links<L, H> {
    Links { upstream, client, state_holder: old.state_holder }
}

impl<L, H> Links<L, H> {
    /// The links of a connection, with its toxic state.
    pub fn new(upstream: L, client: L, state_holder: Option<H>) -> (r: Self)
        ensures
            r.upstream == upstream,
            r.client == client,
            r.state_holder == state_holder,
    {
        Links { upstream, client, state_holder }
    }

    /// The links of the same connection after its pipelines were rebuilt: the
    /// new links, and the toxic state that the connection had, unchanged.
    pub fn rebuilt(self, upstream: L, client: L) -> (r: Self)
        ensures
            r == rebuilt_links(self, upstream, client),
    {
        Links { upstream, client, state_holder: self.state_holder }
    }
}

/// A toxic of this kind keeps state across rebuilds of a connection's pipelines.
pub open spec fn is_stateful(kind: ToxicKind) -> bool {
    kind is LimitData
}

/// Whether some toxic of `s` keeps state.
pub open spec fn any_stateful(s: Seq<Toxic>) -> bool {
    exists|i: int| 0 <= i < s.len() && is_stateful(#[trigger] s[i].kind)
}

fn list_has_stateful(list: &Vec<Toxic>) -> (r: bool)
    ensures
        r == any_stateful(list@),
{
    let mut i: usize = 0;
    while i < list.len()
        invariant
            0 <= i <= list@.len(),
            forall|j: int| 0 <= j < i ==> !is_stateful(#[trigger] list@[j].kind),
        decreases list@.len() - i,
    {
        if let ToxicKind::LimitData { .. } = list[i].kind {
            return true;
        }
        i = i + 1;
    }
    false
}

/// Whether a connection with these toxics needs a holder for toxic state.
pub fn needs_state_holder(toxics: &Toxics) -> (r: bool)
    ensures
        r == (any_stateful(toxics.upstream@) || any_stateful(toxics.downstream@)),
{
    list_has_stateful(&toxics.upstream) || list_has_stateful(&toxics.downstream)
}

/// Whether `s` holds an entry for `addr`.
pub open spec fn has_addr<T>(s: Seq<(ClientAddr, T)>, addr: ClientAddr) -> bool {
    exists|i: int| 0 <= i < s.len() && (#[trigger] s[i]).0 == addr
}

/// `a` comes before `b` in address order: IPv4 before IPv6, then by IP
/// address, by port, and by scope id.
pub open spec fn addr_lt(a: ClientAddr, b: ClientAddr) -> bool {
    (!a.v6 && b.v6) || (a.v6 == b.v6 && (a.ip < b.ip || (a.ip == b.ip && (a.port < b.port || (
    a.port == b.port && a.scope_id < b.scope_id)))))
}

/// Whether `a` comes before `b` in address order.
pub fn addr_less(a: ClientAddr, b: ClientAddr) -> (r: bool)
    ensures
        r == addr_lt(a, b),
{
    (!a.v6 && b.v6) || (a.v6 == b.v6 && (a.ip < b.ip || (a.ip == b.ip && (a.port < b.port || (
    a.port == b.port && a.scope_id < b.scope_id)))))
}

/// The entries of `s` are in strictly increasing address order.
pub open spec fn addrs_sorted<T>(s: Seq<(ClientAddr, T)>) -> bool {
    forall|i: int, j: int| 0 <= i < j < s.len() ==> addr_lt((#[trigger] s[i]).0, (#[trigger] s[j]).0)
}

/// `i` is where `addr` goes in `s` to keep the address order.
pub open spec fn insert_pos_ok<T>(s: Seq<(ClientAddr, T)>, addr: ClientAddr, i: int) -> bool {
    &&& 0 <= i <= s.len()
    &&& forall|j: int| 0 <= j < i ==> addr_lt((#[trigger] s[j]).0, addr)
    &&& forall|j: int| i <= j < s.len() ==> addr_lt(addr, (#[trigger] s[j]).0)
}

/// The entries after registering `links` under `addr`: `None` when the
/// address is already there, else the entries with the new one in its
/// place in address order.
pub open spec fn registered<T>(s: Seq<(ClientAddr, T)>, addr: ClientAddr, links: T) -> Option<Seq<(ClientAddr, T)>> {
    if has_addr(s, addr) {
        None
    } else {
        Some(s.insert(choose|i: int| insert_pos_ok(s, addr, i), (addr, links)))
    }
}

proof fn lemma_insert_pos_unique<T>(s: Seq<(ClientAddr, T)>, addr: ClientAddr, i: int)
    requires
        insert_pos_ok(s, addr, i),
    ensures
        forall|k: int| insert_pos_ok(s, addr, k) ==> k == i,
{
    assert forall|k: int| insert_pos_ok(s, addr, k) implies k == i by {
        if k < i {
            assert(addr_lt(s[k].0, addr));
        } else if i < k {
            assert(addr_lt(s[i].0, addr));
        }
    }
}

proof fn lemma_insert_pos_exists<T>(s: Seq<(ClientAddr, T)>, addr: ClientAddr)
    requires
        addrs_sorted(s),
        !has_addr(s, addr),
    ensures
        exists|i: int| insert_pos_ok(s, addr, i),
    decreases s.len(),
{
    if s.len() == 0 {
        assert(insert_pos_ok(s, addr, 0));
    } else {
        let p = s.drop_last();
        let n = s.len() - 1;
        assert(forall|j: int| 0 <= j < p.len() ==> p[j] == s[j]);
        assert(!has_addr(p, addr)) by {
            if has_addr(p, addr) {
                let j = choose|j: int| 0 <= j < p.len() && (#[trigger] p[j]).0 == addr;
                assert(s[j].0 == addr);
            }
        }
        lemma_insert_pos_exists(p, addr);
        let i0 = choose|i: int| insert_pos_ok(p, addr, i);
        assert(s[n].0 != addr);
        if addr_lt(s[n].0, addr) {
            assert forall|j: int| 0 <= j < s.len() implies addr_lt((#[trigger] s[j]).0, addr) by {
                if j < n {
                    assert(addr_lt(s[j].0, s[n].0));
                }
            }
            assert(insert_pos_ok(s, addr, s.len() as int));
        } else {
            assert(insert_pos_ok(s, addr, i0));
        }
    }
}

/// The shared state of one proxy: the live connections by client address, in
/// address order, and the current toxics.
#[derive(Debug)]
pub struct ProxyState<L, H> {
    clients: Vec<(ClientAddr, Links<L, H>)>,
    /// The toxics that new connections get.
    toxics: Toxics,
}

impl<L, H> ProxyState<L, H> {
    /// The live connections, in address order.
    pub closed spec fn clients(&self) -> Seq<(ClientAddr, Links<L, H>)> {
        self.clients@
    }

    /// The current upstream toxics, in order.
    pub closed spec fn upstream_toxics(&self) -> Seq<Toxic> {
        self.toxics.upstream@
    }

    /// The current downstream toxics, in order.
    pub closed spec fn downstream_toxics(&self) -> Seq<Toxic> {
        self.toxics.downstream@
    }

    /// The connections are in strictly increasing address order, so at most
    /// one is live per address.
    pub open spec fn wf(&self) -> bool {
        addrs_sorted(self.clients())
    }

    /// A state with no connection and the given toxics.
    pub fn new(toxics: Toxics) -> (r: Self)
        ensures
            r.wf(),
            r.clients().len() == 0,
            r.upstream_toxics() == toxics.upstream@,
            r.downstream_toxics() == toxics.downstream@,
    {
        ProxyState { clients: Vec::new(), toxics }
    }

    /// The number of live connections.
    pub fn len(&self) -> (r: usize)
        ensures
            r == self.clients().len(),
    {
        self.clients.len()
    }

    fn index_of(&self, addr: ClientAddr) -> (r: Option<usize>)
        ensures
            match r {
                Some(i) => i < self.clients().len() && self.clients()[i as int].0 == addr,
                None => !has_addr(self.clients(), addr),
            },
    {
        let mut i: usize = 0;
        while i < self.clients.len()
            invariant
                0 <= i <= self.clients@.len(),
                forall|j: int| 0 <= j < i ==> (#[trigger] self.clients@[j]).0 != addr,
            decreases self.clients@.len() - i,
        {
            if self.clients[i].0 == addr {
                return Some(i);
            }
            i = i + 1;
        }
        None
    }

    /// Whether a connection from `addr` is live.
    pub fn contains(&self, addr: ClientAddr) -> (r: bool)
        ensures
            r == has_addr(self.clients(), addr),
    {
        self.index_of(addr).is_some()
    }

    /// Records the links of a new connection from `addr`. A second connection
    /// from an address that is already live is refused, and the first one is
    /// left as it was.
    pub fn register(&mut self, addr: ClientAddr, links: Links<L, H>) -> (r: Result<(), AlreadyExistsError>)
        requires
            old(self).wf(),
        ensures
            final(self).wf(),
            final(self).upstream_toxics() == old(self).upstream_toxics(),
            final(self).downstream_toxics() == old(self).downstream_toxics(),
            match registered(old(self).clients(), addr, links) {
                Some(s) => r is Ok && final(self).clients() == s,
                None => r == Err::<(), AlreadyExistsError>(AlreadyExistsError)
                    && final(self).clients() == old(self).clients(),
            },
    {
        let mut i: usize = 0;
        while i < self.clients.len() && addr_less(self.clients[i].0, addr)
            invariant
                0 <= i <= self.clients@.len(),
                forall|j: int| 0 <= j < i ==> addr_lt((#[trigger] self.clients@[j]).0, addr),
            decreases self.clients@.len() - i,
        {
            i = i + 1;
        }
        if i < self.clients.len() && self.clients[i].0 == addr {
            assert(has_addr(self.clients@, addr));
            return Err(AlreadyExistsError);
        }
        proof {
            let o = self.clients@;
            assert forall|j: int| i <= j < o.len() implies addr_lt(addr, (#[trigger] o[j]).0) by {
                assert(addr_lt(addr, o[i as int].0));
                if j > i {
                    assert(addr_lt(o[i as int].0, o[j].0));
                }
            }
            assert(insert_pos_ok(o, addr, i as int));
            lemma_insert_pos_unique(o, addr, i as int);
            assert(!has_addr(o, addr)) by {
                if has_addr(o, addr) {
                    let j = choose|j: int| 0 <= j < o.len() && (#[trigger] o[j]).0 == addr;
                    if j < i {
                        assert(addr_lt(o[j].0, addr));
                    } else {
                        assert(addr_lt(addr, o[j].0));
                    }
                }
            }
        }
        self.clients.insert(i, (addr, links));
        proof {
            let o = old(self).clients@;
            let t = self.clients@;
            assert forall|a: int, b: int| 0 <= a < b < t.len() implies addr_lt((#[trigger] t[a]).0, (#[trigger] t[b]).0) by {
                if b < i {
                    assert(t[a] == o[a] && t[b] == o[b]);
                } else if b == i {
                    assert(t[a] == o[a]);
                } else if a < i {
                    assert(t[a] == o[a] && t[b] == o[b - 1]);
                } else if a == i {
                    assert(t[b] == o[b - 1]);
                } else {
                    assert(t[a] == o[a - 1] && t[b] == o[b - 1]);
                }
            }
        }
        Ok(())
    }

    /// Forgets the connection from `addr` and hands back its links; `None`
    /// when no connection from `addr` is live.
    pub fn remove(&mut self, addr: ClientAddr) -> (r: Option<Links<L, H>>)
        requires
            old(self).wf(),
        ensures
            final(self).wf(),
            final(self).upstream_toxics() == old(self).upstream_toxics(),
            final(self).downstream_toxics() == old(self).downstream_toxics(),
            !has_addr(old(self).clients(), addr) ==> r is None && final(self).clients() == old(self).clients(),
            forall|i: int| 0 <= i < old(self).clients().len() && (#[trigger] old(self).clients()[i]).0 == addr ==> {
                &&& r == Some(old(self).clients()[i].1)
                &&& final(self).clients() == old(self).clients().remove(i)
            },
    {
        match self.index_of(addr) {
            Some(i) => {
                let (_, links) = self.clients.remove(i);
                proof {
                    let o = old(self).clients@;
                    let s = self.clients@;
                    assert forall|a: int, b: int| 0 <= a < b < s.len() implies addr_lt((#[trigger] s[a]).0, (#[trigger] s[b]).0) by {
                        if a < i {
                            if b < i {
                                assert(s[b] == o[b]);
                            } else {
                                assert(s[b] == o[b + 1]);
                            }
                        } else {
                            assert(s[a] == o[a + 1]);
                            assert(s[b] == o[b + 1]);
                        }
                    }
                }
                Some(links)
            },
            None => None,
        }
    }

    /// Takes every connection out of the state, in address order, leaving it
    /// with none; new
    /// connections can then be registered while the taken ones are rebuilt.
    pub fn take_clients(&mut self) -> (r: Vec<(ClientAddr, Links<L, H>)>)
        requires
            old(self).wf(),
        ensures
            final(self).wf(),
            r@ == old(self).clients(),
            addrs_sorted(r@),
            final(self).clients().len() == 0,
            final(self).upstream_toxics() == old(self).upstream_toxics(),
            final(self).downstream_toxics() == old(self).downstream_toxics(),
    {
        let mut taken: Vec<(ClientAddr, Links<L, H>)> = Vec::new();
        std::mem::swap(&mut taken, &mut self.clients);
        taken
    }

    /// A copy of the current toxics.
    pub fn toxics_snapshot(&self) -> (r: Toxics)
        ensures
            r.upstream@ == self.upstream_toxics(),
            r.downstream@ == self.downstream_toxics(),
    {
        self.toxics.clone()
    }

    /// Applies a reconfiguration request to the toxics and returns a copy of
    /// the new ones. A request naming a toxic that is in neither direction
    /// changes nothing and fails. The connections are not touched.
    pub fn apply_toxic_event(&mut self, event: ToxicEvent) -> (r: Result<Toxics, NotFoundError>)
        requires
            old(self).wf(),
        ensures
            final(self).wf(),
            final(self).clients() == old(self).clients(),
            match toxics_after(old(self).upstream_toxics(), old(self).downstream_toxics(), event.kind) {
                Some((u, d)) => r is Ok
                    && final(self).upstream_toxics() == u && final(self).downstream_toxics() == d
                    && r->Ok_0.upstream@ == u && r->Ok_0.downstream@ == d,
                None => r == Err::<Toxics, NotFoundError>(NotFoundError)
                    && final(self).upstream_toxics() == old(self).upstream_toxics()
                    && final(self).downstream_toxics() == old(self).downstream_toxics(),
            },
    {
        match update_toxics(event, &mut self.toxics) {
            Ok(()) => Ok(self.toxics.clone()),
            Err(e) => Err(e),
        }
    }
}

/// Registering two connections from one address: the first succeeds, the
/// second is refused, and the first stays registered with its own links.
pub proof fn lemma_duplicate_refused<T>(s: Seq<(ClientAddr, T)>, addr: ClientAddr, first: T, second: T)
    requires
        addrs_sorted(s),
        !has_addr(s, addr),
    ensures
        registered(s, addr, first) is Some,
        has_addr(registered(s, addr, first)->Some_0, addr),
        registered(registered(s, addr, first)->Some_0, addr, second) is None,
        exists|i: int| 0 <= i < s.len() + 1 && registered(s, addr, first)->Some_0[i] == (addr, first),
{
    lemma_insert_pos_exists(s, addr);
    let i = choose|i: int| insert_pos_ok(s, addr, i);
    let t = s.insert(i, (addr, first));
    assert(t[i] == (addr, first));
    assert(has_addr(t, addr));
}

/// A connection taken out of the state for a rebuild and registered again
/// under its address, with new links, carries the same toxic state as before:
/// the rebuild resets no state holder.
pub proof fn lemma_rebuild_keeps_toxic_state<L, H>(
    s: Seq<(ClientAddr, Links<L, H>)>,
    addr: ClientAddr,
    links: Links<L, H>,
    upstream: L,
    client: L,
)
    requires
        addrs_sorted(s),
        !has_addr(s, addr),
    ensures
        registered(s, addr, rebuilt_links(links, upstream, client)) is Some,
        exists|i: int|
            0 <= i < s.len() + 1
            && (#[trigger] registered(s, addr, rebuilt_links(links, upstream, client))->Some_0[i]).0 == addr
            && registered(s, addr, rebuilt_links(links, upstream, client))->Some_0[i].1.state_holder
                == links.state_holder,
{
    lemma_insert_pos_exists(s, addr);
    let i = choose|i: int| insert_pos_ok(s, addr, i);
    let l = rebuilt_links(links, upstream, client);
    let t = s.insert(i, (addr, l));
    assert(t.len() == s.len() + 1);
    assert(t[i] == (addr, l));
    assert(registered(s, addr, l) == Some(t));
    assert(registered(s, addr, l)->Some_0[i].0 == addr);
}

} // verus!
