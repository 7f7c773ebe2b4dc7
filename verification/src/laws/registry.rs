//! What the tables of the callbacks find.

use crate::registry::{Registries, RegistriesModel};
use vstd::prelude::*;

verus! {

/// Protocols that are recorded for a context are found for it; every other
/// context finds what it found before, and nothing else is touched.
pub proof fn law_protocols_are_found<W, D>(
    t: &mut Registries<W, D>,
    ctx: usize,
    value: Vec<Vec<u8>>,
    done: (),
    after: &Registries<W, D>,
    found: Option<&Vec<Vec<u8>>>,
)
    requires
        call_ensures(Registries::<W, D>::alpn_registry_set, (t, ctx, value), done),
        after@ == final(t)@,
        call_ensures(Registries::<W, D>::alpn_registry_lookup, (after, ctx), found),
    ensures
        found matches Some(v) && crate::plan::byte_strings(v@) == crate::plan::byte_strings(value@),
        forall|other: usize|
            other != ctx ==> #[trigger] crate::registry::found(final(t)@.alpn, other)
                == crate::registry::found(old(t)@.alpn, other),
        final(t)@ == (RegistriesModel { alpn: final(t)@.alpn, ..old(t)@ }),
{
}

/// A key-log writer that is recorded for a context is found for it; every other
/// context finds what it found before, and nothing else is touched.
pub proof fn law_writers_are_found<W, D>(
    t: &mut Registries<W, D>,
    ctx: usize,
    value: W,
    done: (),
    after: &Registries<W, D>,
    found: Option<&W>,
)
    requires
        call_ensures(Registries::<W, D>::keylog_registry_set, (t, ctx, value), done),
        after@ == final(t)@,
        call_ensures(Registries::<W, D>::keylog_registry_lookup, (after, ctx), found),
    ensures
        found matches Some(v) && *v == value,
        forall|other: usize|
            other != ctx ==> #[trigger] crate::registry::found(final(t)@.keylog, other)
                == crate::registry::found(old(t)@.keylog, other),
        final(t)@ == (RegistriesModel { keylog: final(t)@.keylog, ..old(t)@ }),
{
}

/// An SNI dispatcher that is recorded for a context is found for it; every other
/// context finds what it found before, and nothing else is touched.
pub proof fn law_dispatchers_are_found<W, D>(
    t: &mut Registries<W, D>,
    ctx: usize,
    value: D,
    done: (),
    after: &Registries<W, D>,
    found: Option<&D>,
)
    requires
        call_ensures(Registries::<W, D>::sni_registry_set, (t, ctx, value), done),
        after@ == final(t)@,
        call_ensures(Registries::<W, D>::sni_registry_lookup, (after, ctx), found),
    ensures
        found matches Some(v) && *v == value,
        forall|other: usize|
            other != ctx ==> #[trigger] crate::registry::found(final(t)@.sni, other)
                == crate::registry::found(old(t)@.sni, other),
        final(t)@ == (RegistriesModel { sni: final(t)@.sni, ..old(t)@ }),
{
}

/// A key-log writer that was taken out is found no more, and nothing else
/// changes.
pub proof fn law_writers_are_forgotten<W, D>(
    t: &mut Registries<W, D>,
    ctx: usize,
    done: (),
    after: &Registries<W, D>,
    found: Option<&W>,
)
    requires
        call_ensures(Registries::<W, D>::keylog_registry_remove, (t, ctx), done),
        after@ == final(t)@,
        call_ensures(Registries::<W, D>::keylog_registry_lookup, (after, ctx), found),
    ensures
        found is None,
        forall|other: usize|
            other != ctx ==> #[trigger] crate::registry::found(final(t)@.keylog, other)
                == crate::registry::found(old(t)@.keylog, other),
        final(t)@ == (RegistriesModel { keylog: final(t)@.keylog, ..old(t)@ }),
{
}

/// An SNI dispatcher that was taken out is found no more, and nothing else
/// changes.
pub proof fn law_dispatchers_are_forgotten<W, D>(
    t: &mut Registries<W, D>,
    ctx: usize,
    done: (),
    after: &Registries<W, D>,
    found: Option<&D>,
)
    requires
        call_ensures(Registries::<W, D>::sni_registry_remove, (t, ctx), done),
        after@ == final(t)@,
        call_ensures(Registries::<W, D>::sni_registry_lookup, (after, ctx), found),
    ensures
        found is None,
        forall|other: usize|
            other != ctx ==> #[trigger] crate::registry::found(final(t)@.sni, other)
                == crate::registry::found(old(t)@.sni, other),
        final(t)@ == (RegistriesModel { sni: final(t)@.sni, ..old(t)@ }),
{
}

/// What is recorded of a connection's key log is what that connection finds,
/// even where it is that it has none; a connection of which nothing is recorded
/// finds its context's.
pub proof fn law_own_writers_prevail<W, D>(
    t: &mut Registries<W, D>,
    connection: usize,
    value: Option<W>,
    done: (),
    after: &Registries<W, D>,
    ctx: usize,
    found: Option<&W>,
    other: usize,
    elsewhere: Option<&W>,
)
    requires
        call_ensures(Registries::<W, D>::keylog_connection_set, (t, connection, value), done),
        after@ == final(t)@,
        call_ensures(Registries::<W, D>::keylog_of_connection, (after, connection, ctx), found),
        call_ensures(Registries::<W, D>::keylog_of_connection, (after, other, ctx), elsewhere),
    ensures
        found is Some <==> value is Some,
        value matches Some(v) ==> *(found->Some_0) == v,
        other != connection && crate::registry::found(old(t)@.own_keylog, other) is None ==> (match crate::registry::found(
            old(t)@.keylog,
            ctx,
        ) {
            Some(v) => elsewhere matches Some(e) && *e == v,
            None => elsewhere is None,
        }),
        final(t)@ == (RegistriesModel { own_keylog: final(t)@.own_keylog, ..old(t)@ }),
{
}

/// What is recorded of a connection's SNI dispatcher is what that connection
/// finds, even where it is that it has none; a connection of which nothing is
/// recorded finds its context's.
pub proof fn law_own_dispatchers_prevail<W, D>(
    t: &mut Registries<W, D>,
    connection: usize,
    value: Option<D>,
    done: (),
    after: &Registries<W, D>,
    ctx: usize,
    found: Option<&D>,
    other: usize,
    elsewhere: Option<&D>,
)
    requires
        call_ensures(Registries::<W, D>::sni_connection_set, (t, connection, value), done),
        after@ == final(t)@,
        call_ensures(Registries::<W, D>::sni_of_connection, (after, connection, ctx), found),
        call_ensures(Registries::<W, D>::sni_of_connection, (after, other, ctx), elsewhere),
    ensures
        found is Some <==> value is Some,
        value matches Some(v) ==> *(found->Some_0) == v,
        other != connection && crate::registry::found(old(t)@.own_sni, other) is None ==> (match crate::registry::found(
            old(t)@.sni,
            ctx,
        ) {
            Some(v) => elsewhere matches Some(e) && *e == v,
            None => elsewhere is None,
        }),
        final(t)@ == (RegistriesModel { own_sni: final(t)@.own_sni, ..old(t)@ }),
{
}

/// A connection that has protocols of its own finds them; any other finds those
/// of its context.
pub proof fn law_own_protocols_prevail<W, D>(
    t: &Registries<W, D>,
    connection: usize,
    ctx: usize,
    own: Option<&Vec<Vec<u8>>>,
    shared: Option<&Vec<Vec<u8>>>,
    found: Option<&Vec<Vec<u8>>>,
)
    requires
        call_ensures(Registries::<W, D>::alpn_registry_lookup, (t, connection), own),
        call_ensures(Registries::<W, D>::alpn_registry_lookup, (t, ctx), shared),
        call_ensures(Registries::<W, D>::alpn_of_connection, (t, connection, ctx), found),
    ensures
        own matches Some(list) ==> found is Some && crate::plan::byte_strings(found->Some_0@)
            == crate::plan::byte_strings(list@),
        own is None ==> (found is Some <==> shared is Some),
        own is None ==> (shared matches Some(list) ==> crate::plan::byte_strings(found->Some_0@)
            == crate::plan::byte_strings(list@)),
{
}

/// Once something is gone, nothing of it is found, by any lookup, and all else
/// is as before. New tables hold nothing.
pub proof fn law_what_is_gone_is_not_found<W, D>(
    t: &mut Registries<W, D>,
    gone: usize,
    done: (),
    after: &Registries<W, D>,
    list: Option<&Vec<Vec<u8>>>,
    writer: Option<&W>,
    dispatcher: Option<&D>,
    other: usize,
    fresh: Registries<W, D>,
    any: usize,
    nothing: Option<&Vec<Vec<u8>>>,
)
    requires
        call_ensures(Registries::<W, D>::scrub, (t, gone), done),
        after@ == final(t)@,
        call_ensures(Registries::<W, D>::alpn_registry_lookup, (after, gone), list),
        call_ensures(Registries::<W, D>::keylog_registry_lookup, (after, gone), writer),
        call_ensures(Registries::<W, D>::sni_registry_lookup, (after, gone), dispatcher),
        call_ensures(Registries::<W, D>::new, (), fresh),
        call_ensures(Registries::<W, D>::alpn_registry_lookup, (&fresh, any), nothing),
    ensures
        list is None && writer is None && dispatcher is None,
        crate::registry::found(final(t)@.own_keylog, gone) is None,
        crate::registry::found(final(t)@.own_sni, gone) is None,
        other != gone ==> {
            &&& crate::registry::found(final(t)@.alpn, other) == crate::registry::found(
                old(t)@.alpn,
                other,
            )
            &&& crate::registry::found(final(t)@.keylog, other) == crate::registry::found(
                old(t)@.keylog,
                other,
            )
            &&& crate::registry::found(final(t)@.sni, other) == crate::registry::found(
                old(t)@.sni,
                other,
            )
            &&& crate::registry::found(final(t)@.own_keylog, other) == crate::registry::found(
                old(t)@.own_keylog,
                other,
            )
            &&& crate::registry::found(final(t)@.own_sni, other) == crate::registry::found(
                old(t)@.own_sni,
                other,
            )
        },
        nothing is None,
        crate::registry::found(fresh@.keylog, any) is None,
        crate::registry::found(fresh@.sni, any) is None,
{
}

} // verus!
