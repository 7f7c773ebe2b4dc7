//! What the engine's callbacks look up: protocols, key-log writers and SNI
//! dispatchers, by the address of the context. A connection can have its own
//! of each, by its own address.

use std::collections::HashMap;
use vstd::prelude::*;

verus! {

broadcast use vstd::std_specs::hash::group_hash_axioms;

/// The tables of all contexts. `W` is a key-log writer, `D` an SNI dispatcher.
pub struct Registries<W, D> {
    alpn: HashMap<usize, Vec<Vec<u8>>>,
    keylog: HashMap<usize, W>,
    sni: HashMap<usize, D>,
    /// The key-log writers of connections; `None` for one that has no key log
    /// whatever its context has.
    own_keylog: HashMap<usize, Option<W>>,
    /// The SNI dispatchers of connections; `None` for one that has none
    /// whatever its context has.
    own_sni: HashMap<usize, Option<D>>,
}

/// The mathematical content of [`Registries`].
#[verifier::reject_recursive_types(W)]
#[verifier::reject_recursive_types(D)]
pub struct RegistriesModel<W, D> {
    pub alpn: Map<usize, Seq<Seq<u8>>>,
    pub keylog: Map<usize, W>,
    pub sni: Map<usize, D>,
    /// The key-log writers of connections; `None` for one that has no key log
    /// whatever its context has.
    pub own_keylog: Map<usize, Option<W>>,
    /// The SNI dispatchers of connections; `None` for one that has none
    /// whatever its context has.
    pub own_sni: Map<usize, Option<D>>,
}

impl<W, D> View for Registries<W, D> {
    type V = RegistriesModel<W, D>;

    closed spec fn view(&self) -> RegistriesModel<W, D> {
        RegistriesModel {
            alpn: self.alpn@.map_values(|v: Vec<Vec<u8>>| crate::plan::byte_strings(v@)),
            keylog: self.keylog@,
            sni: self.sni@,
            own_keylog: self.own_keylog@,
            own_sni: self.own_sni@,
        }
    }
}

/// What a table holds for an address.
pub open spec fn found<T>(table: Map<usize, T>, ctx: usize) -> Option<T> {
    if table.dom().contains(ctx) {
        Some(table[ctx])
    } else {
        None
    }
}

impl<W, D> RegistriesModel<W, D> {
    /// The protocols that are recorded for a connection: its own where it has
    /// any, else its context's.
    pub open spec fn alpn_of_connection(self, connection: usize, ctx: usize) -> Option<
        Seq<Seq<u8>>,
    > {
        match found(self.alpn, connection) {
            Some(own) => Some(own),
            None => found(self.alpn, ctx),
        }
    }

    /// The key-log writer of a connection: what is recorded for it where
    /// anything is, else its context's.
    pub open spec fn keylog_of_connection(self, connection: usize, ctx: usize) -> Option<W> {
        match found(self.own_keylog, connection) {
            Some(own) => own,
            None => found(self.keylog, ctx),
        }
    }

    /// The SNI dispatcher of a connection: what is recorded for it where
    /// anything is, else its context's.
    pub open spec fn sni_of_connection(self, connection: usize, ctx: usize) -> Option<D> {
        match found(self.own_sni, connection) {
            Some(own) => own,
            None => found(self.sni, ctx),
        }
    }

    /// The tables without anything about a context or a connection.
    pub open spec fn without(self, ctx: usize) -> RegistriesModel<W, D> {
        RegistriesModel {
            alpn: self.alpn.remove(ctx),
            keylog: self.keylog.remove(ctx),
            sni: self.sni.remove(ctx),
            own_keylog: self.own_keylog.remove(ctx),
            own_sni: self.own_sni.remove(ctx),
        }
    }
}

impl<W, D> Registries<W, D> {
    /// Empty tables.
    pub fn new() -> (r: Self)
        ensures
            r@ == (RegistriesModel::<W, D> {
                alpn: map![],
                keylog: map![],
                sni: map![],
                own_keylog: map![],
                own_sni: map![],
            }),
    {
        let r = Registries {
            alpn: HashMap::new(),
            keylog: HashMap::new(),
            sni: HashMap::new(),
            own_keylog: HashMap::new(),
            own_sni: HashMap::new(),
        };
        assert(r@.alpn =~= map![]);
        assert(r@.keylog =~= map![]);
        assert(r@.sni =~= map![]);
        assert(r@.own_keylog =~= map![]);
        assert(r@.own_sni =~= map![]);
        r
    }

    /// The protocols that a context's server prefers.
    pub fn alpn_registry_lookup(&self, ctx: usize) -> (r: Option<&Vec<Vec<u8>>>)
        ensures
            match found(self@.alpn, ctx) {
                Some(list) => r matches Some(v) && crate::plan::byte_strings(v@) == list,
                None => r is None,
            },
    {
        self.alpn.get(&ctx)
    }

    /// The protocols that a connection's server prefers: the connection's own
    /// where it has any, else its context's.
    pub fn alpn_of_connection(&self, connection: usize, ctx: usize) -> (r: Option<&Vec<Vec<u8>>>)
        ensures
            match self@.alpn_of_connection(connection, ctx) {
                Some(list) => r matches Some(v) && crate::plan::byte_strings(v@) == list,
                None => r is None,
            },
    {
        match self.alpn_registry_lookup(connection) {
            Some(own) => Some(own),
            None => self.alpn_registry_lookup(ctx),
        }
    }

    /// Records the protocols that a context's server prefers.
    pub fn alpn_registry_set(&mut self, ctx: usize, list: Vec<Vec<u8>>)
        ensures
            final(self)@ == (RegistriesModel {
                alpn: old(self)@.alpn.insert(ctx, crate::plan::byte_strings(list@)),
                ..old(self)@
            }),
    {
        self.alpn.insert(ctx, list);
        assert(self@.alpn =~= old(self)@.alpn.insert(ctx, crate::plan::byte_strings(list@)));
    }

    /// The key-log writer of a context.
    pub fn keylog_registry_lookup(&self, ctx: usize) -> (r: Option<&W>)
        ensures
            match found(self@.keylog, ctx) {
                Some(w) => r matches Some(v) && *v == w,
                None => r is None,
            },
    {
        self.keylog.get(&ctx)
    }

    /// The key-log writer of a connection: its own where one is recorded, none
    /// where it is recorded that it has none, else its context's.
    pub fn keylog_of_connection(&self, connection: usize, ctx: usize) -> (r: Option<&W>)
        ensures
            match self@.keylog_of_connection(connection, ctx) {
                Some(w) => r matches Some(v) && *v == w,
                None => r is None,
            },
    {
        match self.own_keylog.get(&connection) {
            Some(own) => match own {
                Some(w) => Some(w),
                None => None,
            },
            None => self.keylog_registry_lookup(ctx),
        }
    }

    /// Records the key-log writer of a connection, or that it has none.
    pub fn keylog_connection_set(&mut self, connection: usize, writer: Option<W>)
        ensures
            final(self)@ == (RegistriesModel {
                own_keylog: old(self)@.own_keylog.insert(connection, writer),
                ..old(self)@
            }),
    {
        self.own_keylog.insert(connection, writer);
    }

    /// Records the key-log writer of a context.
    pub fn keylog_registry_set(&mut self, ctx: usize, writer: W)
        ensures
            final(self)@ == (RegistriesModel {
                keylog: old(self)@.keylog.insert(ctx, writer),
                ..old(self)@
            }),
    {
        self.keylog.insert(ctx, writer);
    }

    /// Forgets the key-log writer of a context.
    pub fn keylog_registry_remove(&mut self, ctx: usize)
        ensures
            final(self)@ == (RegistriesModel {
                keylog: old(self)@.keylog.remove(ctx),
                ..old(self)@
            }),
    {
        self.keylog.remove(&ctx);
        assert(self@.keylog =~= old(self)@.keylog.remove(ctx));
    }

    /// The SNI dispatcher of a context.
    pub fn sni_registry_lookup(&self, ctx: usize) -> (r: Option<&D>)
        ensures
            match found(self@.sni, ctx) {
                Some(d) => r matches Some(v) && *v == d,
                None => r is None,
            },
    {
        self.sni.get(&ctx)
    }

    /// The SNI dispatcher of a connection: its own where one is recorded, none
    /// where it is recorded that it has none, else its context's.
    pub fn sni_of_connection(&self, connection: usize, ctx: usize) -> (r: Option<&D>)
        ensures
            match self@.sni_of_connection(connection, ctx) {
                Some(d) => r matches Some(v) && *v == d,
                None => r is None,
            },
    {
        match self.own_sni.get(&connection) {
            Some(own) => match own {
                Some(d) => Some(d),
                None => None,
            },
            None => self.sni_registry_lookup(ctx),
        }
    }

    /// Records the SNI dispatcher of a connection, or that it has none.
    pub fn sni_connection_set(&mut self, connection: usize, dispatcher: Option<D>)
        ensures
            final(self)@ == (RegistriesModel {
                own_sni: old(self)@.own_sni.insert(connection, dispatcher),
                ..old(self)@
            }),
    {
        self.own_sni.insert(connection, dispatcher);
    }

    /// Records the SNI dispatcher of a context.
    pub fn sni_registry_set(&mut self, ctx: usize, dispatcher: D)
        ensures
            final(self)@ == (RegistriesModel {
                sni: old(self)@.sni.insert(ctx, dispatcher),
                ..old(self)@
            }),
    {
        self.sni.insert(ctx, dispatcher);
    }

    /// Forgets the SNI dispatcher of a context.
    pub fn sni_registry_remove(&mut self, ctx: usize)
        ensures
            final(self)@ == (RegistriesModel { sni: old(self)@.sni.remove(ctx), ..old(self)@ }),
    {
        self.sni.remove(&ctx);
        assert(self@.sni =~= old(self)@.sni.remove(ctx));
    }

    /// Forgets everything about a context or a connection that is gone.
    pub fn scrub(&mut self, ctx: usize)
        ensures
            final(self)@ == old(self)@.without(ctx),
    {
        self.alpn.remove(&ctx);
        self.keylog.remove(&ctx);
        self.sni.remove(&ctx);
        self.own_keylog.remove(&ctx);
        self.own_sni.remove(&ctx);
        assert(self@.alpn =~= old(self)@.alpn.remove(ctx));
        assert(self@.keylog =~= old(self)@.keylog.remove(ctx));
        assert(self@.sni =~= old(self)@.sni.remove(ctx));
        assert(self@.own_keylog =~= old(self)@.own_keylog.remove(ctx));
        assert(self@.own_sni =~= old(self)@.own_sni.remove(ctx));
    }
}

/// Protocols that are recorded for a connection are what that connection
/// finds, and no other connection finds anything else than before.
pub proof fn law_connection_protocols_are_its_own<W, D>(
    m: RegistriesModel<W, D>,
    connection: usize,
    list: Seq<Seq<u8>>,
    other: usize,
    ctx: usize,
)
    ensures
        ({
            let after = RegistriesModel { alpn: m.alpn.insert(connection, list), ..m };
            &&& after.alpn_of_connection(connection, ctx) == Some(list)
            &&& other != connection && ctx != connection ==> after.alpn_of_connection(other, ctx)
                == m.alpn_of_connection(other, ctx)
        }),
{
}

/// A key-log writer that is recorded for a connection, or that it has none, is
/// what that connection finds, and no other connection finds anything else
/// than before.
pub proof fn law_connection_keylog_is_its_own<W, D>(
    m: RegistriesModel<W, D>,
    connection: usize,
    writer: Option<W>,
    other: usize,
    ctx: usize,
)
    ensures
        ({
            let after = RegistriesModel { own_keylog: m.own_keylog.insert(connection, writer), ..m };
            &&& after.keylog_of_connection(connection, ctx) == writer
            &&& other != connection ==> after.keylog_of_connection(other, ctx)
                == m.keylog_of_connection(other, ctx)
        }),
{
}

/// An SNI dispatcher that is recorded for a connection, or that it has none,
/// is what that connection finds, and no other connection finds anything else
/// than before.
pub proof fn law_connection_dispatcher_is_its_own<W, D>(
    m: RegistriesModel<W, D>,
    connection: usize,
    dispatcher: Option<D>,
    other: usize,
    ctx: usize,
)
    ensures
        ({
            let after = RegistriesModel { own_sni: m.own_sni.insert(connection, dispatcher), ..m };
            &&& after.sni_of_connection(connection, ctx) == dispatcher
            &&& other != connection ==> after.sni_of_connection(other, ctx)
                == m.sni_of_connection(other, ctx)
        }),
{
}

/// Once a context or a connection is scrubbed, a later one at the same address
/// finds nothing of it, and every other one finds what it found before.
pub proof fn law_scrubbing_leaks_nothing<W, D>(m: RegistriesModel<W, D>, ctx: usize, other: usize)
    ensures
        found(m.without(ctx).alpn, ctx) is None,
        found(m.without(ctx).keylog, ctx) is None,
        found(m.without(ctx).sni, ctx) is None,
        found(m.without(ctx).own_keylog, ctx) is None,
        found(m.without(ctx).own_sni, ctx) is None,
        other != ctx ==> found(m.without(ctx).alpn, other) == found(m.alpn, other),
        other != ctx ==> found(m.without(ctx).keylog, other) == found(m.keylog, other),
        other != ctx ==> found(m.without(ctx).sni, other) == found(m.sni, other),
        other != ctx ==> found(m.without(ctx).own_keylog, other) == found(m.own_keylog, other),
        other != ctx ==> found(m.without(ctx).own_sni, other) == found(m.own_sni, other),
{
}

} // verus!
