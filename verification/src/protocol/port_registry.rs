use vstd::prelude::*;
use vstd::string::StringExecFns;
use std::collections::HashMap;

verus! {

broadcast use vstd::std_specs::hash::group_hash_axioms;

/// The table of bound UDP ports: each bound port leads to the endpoint
/// (`T`) that receives the datagrams addressed to it.
pub struct PortRegistry<T> {
    sockets: HashMap<u16, T>,
}

impl<T> View for PortRegistry<T> {
    type V = Map<u16, T>;

    closed spec fn view(&self) -> Map<u16, T> {
        self.sockets@
    }
}

/// The error a registration of an already bound port gives.
pub open spec fn port_in_use_message() -> Seq<char> {
    "port already bound"@
}

/// The table after a registration of `port`: unchanged when the port is
/// already bound, otherwise with `port` bound to `tx`.
pub open spec fn table_after_register<T>(table: Map<u16, T>, port: u16, tx: T) -> Map<u16, T> {
    if table.contains_key(port) {
        table
    } else {
        table.insert(port, tx)
    }
}

/// The table after `port` is unbound.
pub open spec fn table_after_unregister<T>(table: Map<u16, T>, port: u16) -> Map<u16, T> {
    table.remove(port)
}

impl<T> PortRegistry<T> {
    /// A registry with no port bound.
    pub fn new() -> (r: Self)
        ensures
            r@ == Map::<u16, T>::empty(),
    {
        Self { sockets: HashMap::new() }
    }

    /// Binds `port` to `tx`; fails, leaving the table unchanged, when the
    /// port is already bound.
    pub fn register(&mut self, port: u16, tx: T) -> (r: Result<(), String>)
        ensures
            final(self)@ == table_after_register(old(self)@, port, tx),
            old(self)@.contains_key(port) ==> {
                &&& r is Err
                &&& r->Err_0@ == port_in_use_message()
                &&& final(self)@ == old(self)@
            },
            !old(self)@.contains_key(port) ==> {
                &&& r is Ok
                &&& final(self)@ == old(self)@.insert(port, tx)
            },
    {
        if self.sockets.contains_key(&port) {
            return Err(String::from_str("port already bound"));
        }
        self.sockets.insert(port, tx);
        Ok(())
    }

    /// Unbinds `port` (nothing happens when it is not bound); always succeeds.
    pub fn unregister(&mut self, port: u16) -> (r: Result<(), String>)
        ensures
            r is Ok,
            final(self)@ == table_after_unregister(old(self)@, port),
    {
        self.sockets.remove(&port);
        Ok(())
    }

    /// Whether `port` is bound.
    pub(crate) fn is_bound(&self, port: u16) -> (b: bool)
        ensures
            b == self@.contains_key(port),
    {
        self.sockets.contains_key(&port)
    }

    /// A clone of the endpoint bound to `port`, if any.
    pub fn get(&self, port: u16) -> (r: Option<T>) where T: Clone
        ensures
            self@.contains_key(port) ==> r is Some && cloned(self@[port], r->Some_0),
            !self@.contains_key(port) ==> r is None,
    {
        match self.sockets.get(&port) {
            Some(tx) => Some(tx.clone()),
            None => None,
        }
    }
}

/// Law: registering a free port and unregistering it again gives back the
/// table as it was.
pub proof fn lemma_register_then_unregister_restores<T>(table: Map<u16, T>, port: u16, tx: T)
    requires
        !table.contains_key(port),
    ensures
        table_after_unregister(table_after_register(table, port, tx), port) == table,
{
    assert(table.insert(port, tx).remove(port) =~= table);
}

/// Law: a registered port leads to its endpoint; a second registration of
/// the same port keeps the first endpoint.
pub proof fn lemma_first_registration_wins<T>(table: Map<u16, T>, port: u16, first: T, second: T)
    requires
        !table.contains_key(port),
    ensures
        table_after_register(table, port, first).contains_key(port),
        table_after_register(table, port, first)[port] == first,
        table_after_register(table_after_register(table, port, first), port, second)
            == table_after_register(table, port, first),
{
}

/// Law: unregistering frees the port, twice is the same as once, and no
/// other port is touched.
pub proof fn lemma_unregister_frees<T>(table: Map<u16, T>, port: u16, other: u16)
    ensures
        !table_after_unregister(table, port).contains_key(port),
        table_after_unregister(table_after_unregister(table, port), port)
            == table_after_unregister(table, port),
        other != port ==> table_after_unregister(table, port).contains_key(other)
            == table.contains_key(other),
        other != port && table.contains_key(other) ==> table_after_unregister(table, port)[other]
            == table[other],
{
    assert(table.remove(port).remove(port) =~= table.remove(port));
}

/// Law: operations on two different ports commute.
pub proof fn lemma_distinct_ports_commute<T>(table: Map<u16, T>, p: u16, q: u16, a: T, b: T)
    requires
        p != q,
    ensures
        table_after_register(table_after_register(table, p, a), q, b) == table_after_register(
            table_after_register(table, q, b),
            p,
            a,
        ),
        table_after_unregister(table_after_register(table, p, a), q) == table_after_register(
            table_after_unregister(table, q),
            p,
            a,
        ),
{
    assert(table_after_register(table_after_register(table, p, a), q, b) =~= table_after_register(
        table_after_register(table, q, b),
        p,
        a,
    ));
    assert(table_after_unregister(table_after_register(table, p, a), q) =~= table_after_register(
        table_after_unregister(table, q),
        p,
        a,
    ));
}

} // verus!
