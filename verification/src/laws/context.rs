//! What the calls of a context do.

use crate::context::{
    ciphers_setting, curves_setting, engine_flags, keylog_plan, law_verify_flags_are_replaced,
    locations_plan, opt_slice, protocols_plan, session_id_plan, slice_texts, sni_plan,
    tickets_plan, verify_flags_plan, verify_plan, version_plan, Context, ContextModel, Protocol,
    TlsVersion, VerifyMode,
};
use crate::error::Error;
use crate::fingerprint::spec::Fingerprint;
use crate::plan::{ArgumentModel, End, Function, Plan, StepModel};
use vstd::prelude::*;

verus! {

/// The engine speaks of TLS 1.2 as 0x0303 and of TLS 1.3 as 0x0304; the lowest
/// there is means TLS 1.2, and the highest TLS 1.3.
pub proof fn law_version_numbers(v: TlsVersion, r: u16)
    requires
        call_ensures(TlsVersion::to_boring_version, (v,), r),
    ensures
        r == v.wire(),
        r == (match v {
            TlsVersion::MinimumSupported | TlsVersion::Tls1_2 => 0x0303int,
            TlsVersion::Tls1_3 | TlsVersion::MaximumSupported => 0x0304,
        }),
{
}

/// The bit for checking a certificate is set exactly where one is asked for,
/// and the bit for demanding one exactly where it is required; no other is.
pub proof fn law_verify_bits(mode: VerifyMode)
    ensures
        mode.flags() % 2 == 1 <==> mode != VerifyMode::Disabled,
        mode.flags() / 2 == 1 <==> mode == VerifyMode::Required,
        mode.flags() < 4,
{
}

/// Version bounds are taken exactly where they are in order; the engine's
/// minimum is then the lower bound and its maximum the upper one, and nothing
/// else is set.
pub proof fn law_setting_version_bounds(
    c: &mut Context,
    min: TlsVersion,
    max: TlsVersion,
    r: Result<Plan, Error>,
)
    requires
        call_ensures(Context::set_version_bounds, (c, min, max), r),
    ensures
        r is Ok <==> min.rank() <= max.rank(),
        r is Err ==> final(c)@ == old(c)@,
        r matches Ok(p) ==> {
            &&& p@.refusal is None
            &&& final(c)@.minimum_version == min
            &&& final(c)@.maximum_version == max
            &&& final(c)@ == (ContextModel {
                minimum_version: final(c)@.minimum_version,
                maximum_version: final(c)@.maximum_version,
                ..old(c)@
            })
            &&& old(c)@.shared ==> p@.steps.len() == 0
            &&& !old(c)@.shared ==> {
                &&& p@.steps.len() == 2
                &&& crate::plan::last_argument(p@.steps, Function::SetMinVersion) == Some(
                    ArgumentModel::Number(min.wire() as u64),
                )
                &&& crate::plan::last_argument(p@.steps, Function::SetMaxVersion) == Some(
                    ArgumentModel::Number(max.wire() as u64),
                )
            }
        },
{
    law_versions_reach_the_engine(min, max);
}

/// The calls for version bounds leave the engine's minimum at the lower bound
/// and its maximum at the upper one, and tell where it takes them not.
pub proof fn law_versions_reach_the_engine(min: TlsVersion, max: TlsVersion)
    ensures
        crate::plan::last_argument(version_plan(min, max).steps, Function::SetMinVersion) == Some(
            ArgumentModel::Number(min.wire() as u64),
        ),
        crate::plan::last_argument(version_plan(min, max).steps, Function::SetMaxVersion) == Some(
            ArgumentModel::Number(max.wire() as u64),
        ),
        forall|i: int|
            0 <= i < version_plan(min, max).steps.len() ==> (#[trigger] version_plan(
                min,
                max,
            ).steps[i]).on_failure is Report,
{
    let steps = version_plan(min, max).steps;
    crate::plan::lemma_given(
        steps,
        Function::SetMinVersion,
        Some(ArgumentModel::Number(min.wire() as u64)),
        0,
    );
    crate::plan::lemma_given(
        steps,
        Function::SetMaxVersion,
        Some(ArgumentModel::Number(max.wire() as u64)),
        1,
    );
}

/// The order of versions: TLS 1.2 comes before TLS 1.3, the lowest there is
/// before both, and the highest after both.
pub proof fn law_version_order()
    ensures
        TlsVersion::MinimumSupported.rank() < TlsVersion::Tls1_2.rank(),
        TlsVersion::Tls1_2.rank() < TlsVersion::Tls1_3.rank(),
        TlsVersion::Tls1_3.rank() < TlsVersion::MaximumSupported.rank(),
{
}

/// Setting the verify mode sets that mode, in the context and, unless it is
/// shared, in the engine: 0 where no certificate is asked for, 1 where one is
/// checked, 3 where one is demanded too.
pub proof fn law_setting_the_verify_mode(c: &mut Context, mode: VerifyMode, r: Plan)
    requires
        call_ensures(Context::set_verify_mode, (c, mode), r),
    ensures
        final(c)@.verify_mode == mode,
        final(c)@ == (ContextModel { verify_mode: final(c)@.verify_mode, ..old(c)@ }),
        r@.refusal is None,
        old(c)@.shared ==> r@.steps.len() == 0,
        !old(c)@.shared ==> r@.steps.len() == 1 && crate::plan::last_argument(
            r@.steps,
            Function::SetVerify,
        ) == Some(
            ArgumentModel::Number(
                match mode {
                    VerifyMode::Disabled => 0,
                    VerifyMode::Optional => 1,
                    VerifyMode::Required => 3,
                },
            ),
        ),
{
    crate::plan::lemma_given(
        verify_plan(mode).steps,
        Function::SetVerify,
        Some(ArgumentModel::Number(mode.flags())),
        0,
    );
}

/// A fresh client demands certificates and checks hostnames, a fresh server
/// does neither; both speak TLS 1.2 and TLS 1.3 and have nothing else set. The
/// engine is told the same, and a server gets its callbacks.
pub proof fn law_fresh_contexts(protocol: Protocol, r: (Context, Plan))
    requires
        call_ensures(Context::new, (protocol,), r),
    ensures
        ({
            let server = protocol == Protocol::TlsServer;
            let m = r.0@;
            &&& m.is_server == server
            &&& m.check_hostname == !server
            &&& m.verify_mode == (if server {
                VerifyMode::Disabled
            } else {
                VerifyMode::Required
            })
            &&& m.minimum_version == TlsVersion::Tls1_2
            &&& m.maximum_version == TlsVersion::Tls1_3
            &&& m.fingerprint is None && m.ech_config_list is None && m.alpn_list.len() == 0
            &&& m.verify_flags == 0 && m.inherited_flags == 0 && !m.keylog && !m.shared
            &&& m.own_ciphers is None && m.own_groups is None && m.own_session_id is None
            &&& m.own_keylog is None && m.own_sni is None && m.own_tickets is None
            &&& r.1@.refusal is None
        }),
        ({
            let server = protocol == Protocol::TlsServer;
            let steps = r.1@.steps;
            &&& crate::plan::last_argument(steps, Function::NewContext) == Some(
                ArgumentModel::Flag(server),
            )
            &&& crate::plan::last_argument(steps, Function::SetMinVersion) == Some(
                ArgumentModel::Number(0x0303),
            )
            &&& crate::plan::last_argument(steps, Function::SetMaxVersion) == Some(
                ArgumentModel::Number(0x0304),
            )
            &&& crate::plan::last_argument(steps, Function::SetVerify) == Some(
                ArgumentModel::Number(
                    if server {
                        0
                    } else {
                        3
                    },
                ),
            )
            &&& crate::plan::last_argument(steps, Function::InstallCapture) is Some <==> server
            &&& crate::plan::last_argument(steps, Function::InstallAlpnSelection) is Some
                <==> server
            &&& crate::plan::last_argument(steps, Function::InstallSniDispatch) is Some <==> server
            &&& crate::plan::last_argument(steps, Function::ClearAutoRetry) is Some
        }),
{
    let server = protocol == Protocol::TlsServer;
    let steps = r.1@.steps;
    let on = |there: bool|
        if there {
            Some(ArgumentModel::Nothing)
        } else {
            None
        };
    let flags: u64 = if server {
        0
    } else {
        3
    };
    crate::plan::lemma_given(
        steps,
        Function::NewContext,
        Some(ArgumentModel::Flag(server)),
        0,
    );
    crate::plan::lemma_given(
        steps,
        Function::SetMinVersion,
        Some(ArgumentModel::Number(0x0303)),
        1,
    );
    crate::plan::lemma_given(
        steps,
        Function::SetMaxVersion,
        Some(ArgumentModel::Number(0x0304)),
        2,
    );
    crate::plan::lemma_given(steps, Function::SetVerify, Some(ArgumentModel::Number(flags)), 3);
    crate::plan::lemma_given(steps, Function::ClearAutoRetry, on(true), 4);
    crate::plan::lemma_given(steps, Function::InstallCapture, on(server), 5);
    crate::plan::lemma_given(steps, Function::InstallAlpnSelection, on(server), 6);
    crate::plan::lemma_given(steps, Function::InstallSniDispatch, on(server), 7);
}

/// Hostname checks can be switched on and off, but not on while no certificate
/// is asked for.
pub proof fn law_setting_hostname_checks(c: &mut Context, enabled: bool, r: Result<(), Error>)
    requires
        call_ensures(Context::set_check_hostname, (c, enabled), r),
    ensures
        r is Err <==> enabled && old(c)@.verify_mode == VerifyMode::Disabled,
        r is Err ==> final(c)@ == old(c)@,
        r is Ok ==> final(c)@.check_hostname == enabled && final(c)@ == (ContextModel {
            check_hostname: final(c)@.check_hostname,
            ..old(c)@
        }),
{
}

/// Protocols are taken exactly where each is between 1 and 255 bytes long in
/// UTF-8. They are then the context's list; a client's engine advertises them,
/// each behind its length, and a server's callback chooses from them.
pub proof fn law_setting_protocols(c: &mut Context, names: &[&str], r: Result<Plan, Error>)
    requires
        call_ensures(Context::set_alpn_protocols, (c, names), r),
    ensures
        ({
            let items = names@.map_values(|s: &str| vstd::utf8::encode_utf8(s@));
            &&& r is Ok <==> forall|i: int| 0 <= i < items.len() ==> 1 <= (
            #[trigger] items[i]).len() <= 255
            &&& r is Err ==> final(c)@ == old(c)@
            &&& r matches Ok(p) ==> {
                &&& final(c)@.alpn_list == items
                &&& final(c)@ == (ContextModel { alpn_list: final(c)@.alpn_list, ..old(c)@ })
                &&& p@.refusal is None
                &&& old(c)@.shared ==> p@.steps.len() == 0
                &&& !old(c)@.shared ==> p@.steps.len() == 1
                &&& !old(c)@.shared && !old(c)@.is_server ==> crate::plan::last_argument(
                    p@.steps,
                    Function::SetContextAlpn,
                ) == Some(ArgumentModel::Bytes(crate::lists::encoded(items)))
                &&& !old(c)@.shared && old(c)@.is_server ==> crate::plan::last_argument(
                    p@.steps,
                    Function::RegisterAlpn,
                ) == Some(ArgumentModel::Names(items))
            }
        }),
{
    let items = names@.map_values(|s: &str| vstd::utf8::encode_utf8(s@));
    assert(items =~= crate::alpn::name_bytes(slice_texts(names@)));
    let server = protocols_plan(true, items).steps;
    let client = protocols_plan(false, items).steps;
    crate::plan::lemma_given(
        client,
        Function::SetContextAlpn,
        Some(ArgumentModel::Bytes(crate::lists::encoded(items))),
        0,
    );
    crate::plan::lemma_given(
        server,
        Function::RegisterAlpn,
        Some(ArgumentModel::Names(items)),
        0,
    );
}

/// A list of cipher suites without NUL goes to the engine as it is: to its
/// context or, while that is shared, to a connection on trial.
pub proof fn law_setting_ciphers(c: &Context, list: &str, r: Result<Plan, Error>)
    requires
        call_ensures(Context::set_ciphers, (c, list), r),
    ensures
        r is Err <==> list@.contains('\0'),
        r matches Ok(p) ==> {
            &&& p@.refusal is None
            &&& crate::plan::last_argument(p@.steps, Function::SetContextCiphers) == (
            if c@.shared {
                None
            } else {
                Some(ArgumentModel::Text(list@))
            })
            &&& crate::plan::last_argument(p@.steps, Function::SetCiphers) == (if c@.shared {
                Some(ArgumentModel::Text(list@))
            } else {
                None
            })
            &&& p@.steps.last().on_failure is Report
        },
{
    lemma_nul(list@);
    let steps = ciphers_setting(c@, list@).steps;
    let text = Some(ArgumentModel::Text(list@));
    crate::plan::lemma_given(
        steps,
        Function::SetContextCiphers,
        if c@.shared {
            None
        } else {
            text
        },
        0,
    );
    crate::plan::lemma_given(
        steps,
        Function::SetCiphers,
        if c@.shared {
            text
        } else {
            None
        },
        1,
    );
}

/// A list of groups without NUL goes to the engine as it is: to its context or,
/// while that is shared, to a connection on trial.
pub proof fn law_setting_curves(c: &Context, names: &str, r: Result<Plan, Error>)
    requires
        call_ensures(Context::set_curves_list, (c, names), r),
    ensures
        r is Err <==> names@.contains('\0'),
        r matches Ok(p) ==> {
            &&& p@.refusal is None
            &&& crate::plan::last_argument(p@.steps, Function::SetCurves) == (if c@.shared {
                None
            } else {
                Some(ArgumentModel::Text(names@))
            })
            &&& crate::plan::last_argument(p@.steps, Function::SetGroups) == (if c@.shared {
                Some(ArgumentModel::Text(names@))
            } else {
                None
            })
            &&& p@.steps.last().on_failure is Report
        },
{
    lemma_nul(names@);
    let steps = curves_setting(c@, names@).steps;
    let text = Some(ArgumentModel::Text(names@));
    crate::plan::lemma_given(
        steps,
        Function::SetCurves,
        if c@.shared {
            None
        } else {
            text
        },
        0,
    );
    crate::plan::lemma_given(
        steps,
        Function::SetGroups,
        if c@.shared {
            text
        } else {
            None
        },
        1,
    );
}

proof fn lemma_nul(s: Seq<char>)
    ensures
        crate::text::has_nul(s) == s.contains('\0'),
{
    if s.contains('\0') {
        let i = choose|i: int| 0 <= i < s.len() && s[i] == '\0';
        assert(s[i] == '\0');
    }
}

/// Lists that the engine took on trial become the context's own; lists that it
/// did not take change nothing.
pub proof fn law_lists_are_kept_once_taken(
    c: &mut Context,
    d: &mut Context,
    list: &str,
    end: &End,
    r: (),
    q: (),
)
    requires
        !list@.contains('\0'),
        call_ensures(Context::ciphers_set, (c, list, end), r),
        call_ensures(Context::curves_set, (d, list, end), q),
    ensures
        final(c)@.own_ciphers == (if old(c)@.shared && end@ is Done {
            Some(list@)
        } else {
            old(c)@.own_ciphers
        }),
        final(c)@ == (ContextModel { own_ciphers: final(c)@.own_ciphers, ..old(c)@ }),
        final(d)@.own_groups == (if old(d)@.shared && end@ is Done {
            Some(list@)
        } else {
            old(d)@.own_groups
        }),
        final(d)@ == (ContextModel { own_groups: final(d)@.own_groups, ..old(d)@ }),
{
    lemma_nul(list@);
}

/// A client takes any valid fingerprint and shows it from then on; a server
/// takes none; taking it out always succeeds.
pub proof fn law_setting_a_fingerprint(
    c: &mut Context,
    fp: Option<Fingerprint>,
    r: Result<(), Error>,
)
    requires
        call_ensures(Context::set_fingerprint, (c, fp), r),
    ensures
        r is Ok <==> match fp {
            None => true,
            Some(f) => !old(c)@.is_server && f@.is_valid(),
        },
        r is Err ==> final(c)@ == old(c)@,
        r is Ok ==> final(c)@ == (ContextModel {
            fingerprint: final(c)@.fingerprint,
            ..old(c)@
        }),
        r is Ok ==> match fp {
            None => final(c)@.fingerprint is None,
            Some(f) => final(c)@.fingerprint == Some(f@),
        },
{
}

/// A session ID context of at most 32 bytes goes to the engine or, while that
/// is shared, is kept for the context's own connections.
pub proof fn law_setting_a_session_id_context(
    c: &mut Context,
    id: &[u8],
    r: Result<Plan, Error>,
)
    requires
        call_ensures(Context::set_session_id_context, (c, id), r),
    ensures
        r is Ok <==> id@.len() <= 32,
        r is Err ==> final(c)@ == old(c)@,
        final(c)@ == (ContextModel { own_session_id: final(c)@.own_session_id, ..old(c)@ }),
        r matches Ok(p) ==> {
            &&& final(c)@.own_session_id == (if old(c)@.shared {
                Some(id@)
            } else {
                old(c)@.own_session_id
            })
            &&& crate::plan::last_argument(p@.steps, Function::SetSessionIdContext) == (
            if old(c)@.shared {
                None
            } else {
                Some(ArgumentModel::Bytes(id@))
            })
        },
{
    crate::plan::lemma_given(
        session_id_plan(id@).steps,
        Function::SetSessionIdContext,
        Some(ArgumentModel::Bytes(id@)),
        0,
    );
    crate::plan::lemma_given(
        Seq::<StepModel>::empty(),
        Function::SetSessionIdContext,
        None,
        0,
    );
}

/// A number of session tickets goes to the engine or, while that is shared, is
/// kept; what is kept is what is told of later, up to the engine's sixteen.
pub proof fn law_setting_the_number_of_tickets(
    c: &mut Context,
    n: usize,
    r: Plan,
    after: &Context,
    engine: usize,
    told: usize,
)
    requires
        call_ensures(Context::set_num_tickets, (c, n), r),
        after@ == final(c)@,
        call_ensures(Context::num_tickets, (after, engine), told),
    ensures
        crate::plan::last_argument(r@.steps, Function::SetNumTickets) == (if old(c)@.shared {
            None
        } else {
            Some(ArgumentModel::Number(n as u64))
        }),
        final(c)@ == (ContextModel { own_tickets: final(c)@.own_tickets, ..old(c)@ }),
        old(c)@.shared ==> told == (if n <= 16 {
            n as int
        } else {
            16
        }),
        old(c)@.own_tickets is None && !old(c)@.shared ==> told == engine,
{
    crate::plan::lemma_given(
        tickets_plan(n).steps,
        Function::SetNumTickets,
        Some(ArgumentModel::Number(n as u64)),
        0,
    );
    crate::plan::lemma_given(Seq::<StepModel>::empty(), Function::SetNumTickets, None, 0);
}

/// Verify flags count as set once the engine has taken them, and are told of
/// from then on; while the engine context is shared it keeps its own.
pub proof fn law_setting_verify_flags(
    c: &mut Context,
    flags: u64,
    end: &End,
    r: (),
    before: &Context,
    plan: Plan,
    after: &Context,
    told: u64,
)
    requires
        before@ == old(c)@,
        call_ensures(Context::set_verify_flags, (before, flags), plan),
        call_ensures(Context::verify_flags_set, (c, flags, end), r),
        after@ == final(c)@,
        call_ensures(Context::verify_flags, (after,), told),
    ensures
        plan@.refusal is None,
        old(c)@.shared ==> plan@.steps.len() == 0,
        !old(c)@.shared ==> crate::plan::last_argument(plan@.steps, Function::GetContextParam)
            is Some,
        forall|base: u64|
            !old(c)@.shared && base & old(c)@.verify_flags == 0 ==> #[trigger] engine_flags(
                base | old(c)@.verify_flags,
                plan@.steps,
            ) == base | flags,
        told == (if end@ is Done {
            flags
        } else {
            old(c)@.verify_flags
        }),
        final(c)@.verify_flags == told,
        final(c)@.inherited_flags == (if end@ is Done && !old(c)@.shared {
            flags
        } else {
            old(c)@.inherited_flags
        }),
        final(c)@ == (ContextModel {
            verify_flags: final(c)@.verify_flags,
            inherited_flags: final(c)@.inherited_flags,
            ..old(c)@
        }),
{
    let steps = verify_flags_plan(old(c)@.verify_flags, flags).steps;
    crate::plan::lemma_given(
        steps,
        Function::GetContextParam,
        Some(ArgumentModel::Nothing),
        0,
    );
    assert forall|base: u64|
        !old(c)@.shared && base & old(c)@.verify_flags == 0 implies #[trigger] engine_flags(
        base | old(c)@.verify_flags,
        plan@.steps,
    ) == base | flags by {
        law_verify_flags_are_replaced(base, old(c)@.verify_flags, flags);
    }
}

/// The key log is on exactly where a path was given and its file could be
/// opened; the writer and the engine's callback go together.
pub proof fn law_setting_the_key_log(
    c: &mut Context,
    path: Option<&str>,
    opened: Result<(), String>,
    r: Result<Plan, Error>,
)
    requires
        call_ensures(Context::set_keylog_filename, (c, path, opened), r),
    ensures
        r is Err <==> path is Some && opened is Err,
        r is Err ==> final(c)@ == old(c)@,
        r matches Ok(p) ==> {
            &&& final(c)@.keylog == (path is Some)
            &&& final(c)@.own_keylog == (if old(c)@.shared {
                Some(path is Some)
            } else {
                None
            })
            &&& final(c)@ == (ContextModel {
                keylog: final(c)@.keylog,
                own_keylog: final(c)@.own_keylog,
                ..old(c)@
            })
            &&& old(c)@.shared ==> p@.steps.len() == 0
            &&& !old(c)@.shared ==> crate::plan::last_argument(p@.steps, Function::RegisterKeylog)
                == Some(ArgumentModel::Flag(path is Some))
            &&& !old(c)@.shared ==> crate::plan::last_argument(
                p@.steps,
                Function::SetKeylogCallback,
            ) == Some(ArgumentModel::Flag(path is Some))
        },
{
    let on = Some(ArgumentModel::Flag(path is Some));
    let steps = keylog_plan(path is Some).steps;
    crate::plan::lemma_given(steps, Function::RegisterKeylog, on, 0);
    crate::plan::lemma_given(steps, Function::SetKeylogCallback, on, 1);
}

/// A server takes an SNI dispatcher, or has it taken out; a client has none.
pub proof fn law_setting_the_dispatcher(c: &mut Context, present: bool, r: Result<Plan, Error>)
    requires
        call_ensures(Context::set_sni_dispatcher, (c, present), r),
    ensures
        r is Ok <==> old(c)@.is_server,
        r is Err ==> final(c)@ == old(c)@,
        final(c)@ == (ContextModel { own_sni: final(c)@.own_sni, ..old(c)@ }),
        r matches Ok(p) ==> {
            &&& final(c)@.own_sni == (if old(c)@.shared {
                Some(present)
            } else {
                old(c)@.own_sni
            })
            &&& crate::plan::last_argument(p@.steps, Function::RegisterSni) == (
            if old(c)@.shared {
                None
            } else {
                Some(ArgumentModel::Flag(present))
            })
        },
{
    crate::plan::lemma_given(
        sni_plan(present).steps,
        Function::RegisterSni,
        Some(ArgumentModel::Flag(present)),
        0,
    );
    crate::plan::lemma_given(Seq::<StepModel>::empty(), Function::RegisterSni, None, 0);
}

/// A fork has the ECH configuration that it was given and every other setting
/// of its base; the base keeps all of its own, and both know that they share.
pub proof fn law_forks(c: &mut Context, ech: Option<Vec<u8>>, r: Context)
    requires
        call_ensures(Context::set_ech_configs, (c, ech), r),
    ensures
        r@.ech_config_list is Some <==> ech is Some,
        ech matches Some(b) ==> r@.ech_config_list == Some(b@),
        r@.shared && final(c)@.shared,
        final(c)@ == (ContextModel { shared: final(c)@.shared, ..old(c)@ }),
        r@ == (ContextModel {
            shared: r@.shared,
            ech_config_list: r@.ech_config_list,
            ..old(c)@
        }),
{
}

/// Trusted certificates are loaded from exactly the paths that were given, and
/// one certificate is added by handing its very bytes to the engine.
pub proof fn law_loading_trust(
    c: &Context,
    cafile: Option<&str>,
    capath: Option<&str>,
    r: Result<Plan, Error>,
    der: &[u8],
    added: Plan,
)
    requires
        call_ensures(Context::load_verify_locations, (c, cafile, capath), r),
        call_ensures(Context::add_trusted_cert_der, (c, der), added),
    ensures
        r matches Ok(p) ==> (cafile is Some || capath is Some) && crate::plan::last_argument(
            p@.steps,
            Function::LoadVerifyLocations,
        ) == Some(ArgumentModel::Paths(opt_slice(cafile), opt_slice(capath))),
        r is Err <==> (cafile is None && capath is None) || (cafile matches Some(f)
            && f@.contains('\0')) || (capath matches Some(d) && d@.contains('\0')),
        crate::plan::last_argument(added@.steps, Function::ParseCertificate) == Some(
            ArgumentModel::Bytes(der@),
        ),
        crate::plan::last_argument(added@.steps, Function::AddToStore) is Some,
        forall|i: int|
            0 <= i < added@.steps.len() ==> (#[trigger] added@.steps[i]).on_failure is Report,
{
    match cafile {
        Some(f) => lemma_nul(f@),
        None => {},
    }
    match capath {
        Some(d) => lemma_nul(d@),
        None => {},
    }
    crate::plan::lemma_given(
        locations_plan(opt_slice(cafile), opt_slice(capath)).steps,
        Function::LoadVerifyLocations,
        Some(ArgumentModel::Paths(opt_slice(cafile), opt_slice(capath))),
        0,
    );
    crate::plan::lemma_given(
        added@.steps,
        Function::ParseCertificate,
        Some(ArgumentModel::Bytes(der@)),
        0,
    );
    crate::plan::lemma_given(
        added@.steps,
        Function::AddToStore,
        Some(ArgumentModel::Nothing),
        1,
    );
}

/// What is told of a context is what it holds.
pub proof fn law_what_is_told(
    c: &Context,
    server: bool,
    mode: VerifyMode,
    checked: bool,
    list: Vec<Vec<u8>>,
    fp: Option<Fingerprint>,
    ech: Option<Vec<u8>>,
)
    requires
        call_ensures(Context::is_server, (c,), server),
        call_ensures(Context::verify_mode, (c,), mode),
        call_ensures(Context::check_hostname, (c,), checked),
        call_ensures(Context::alpn_list_snapshot, (c,), list),
        call_ensures(Context::fingerprint, (c,), fp),
        call_ensures(Context::ech_config_list, (c,), ech),
    ensures
        server == c@.is_server,
        mode == c@.verify_mode,
        checked == c@.check_hostname,
        list@.map_values(|b: Vec<u8>| b@) == c@.alpn_list,
        fp is Some <==> c@.fingerprint is Some,
        fp matches Some(f) ==> c@.fingerprint == Some(f@),
        ech is Some <==> c@.ech_config_list is Some,
        ech matches Some(b) ==> c@.ech_config_list == Some(b@),
{
    assert(list@.map_values(|b: Vec<u8>| b@) =~= crate::plan::byte_strings(list@));
}

/// Where version bounds are not in order, both are named in the error.
pub proof fn law_refused_bounds_are_named(
    c: &mut Context,
    min: TlsVersion,
    max: TlsVersion,
    r: Result<Plan, Error>,
    low: Seq<char>,
    high: Seq<char>,
)
    requires
        call_ensures(Context::set_version_bounds, (c, min, max), r),
        r is Err,
        low == (match min {
            TlsVersion::MinimumSupported => "MinimumSupported"@,
            TlsVersion::Tls1_2 => "Tls1_2"@,
            TlsVersion::Tls1_3 => "Tls1_3"@,
            TlsVersion::MaximumSupported => "MaximumSupported"@,
        }),
        high == (match max {
            TlsVersion::MinimumSupported => "MinimumSupported"@,
            TlsVersion::Tls1_2 => "Tls1_2"@,
            TlsVersion::Tls1_3 => "Tls1_3"@,
            TlsVersion::MaximumSupported => "MaximumSupported"@,
        }),
    ensures
        r->Err_0 matches Error::Usage(t) && t@ == "minimum_version ("@ + low
            + ") cannot exceed maximum_version ("@ + high + ")"@,
{
}

/// Where a key-log file cannot be opened, its path and the reason are told.
pub proof fn law_refused_key_logs_are_named(
    c: &mut Context,
    path: &str,
    reason: String,
    r: Result<Plan, Error>,
)
    requires
        call_ensures(Context::set_keylog_filename, (c, Some(path), Err(reason)), r),
    ensures
        r is Err,
        r->Err_0 matches Error::Protocol { message, code } && code is None && message@
            == "keylog_filename: could not open "@ + crate::text::quoted(path@) + ": "@ + reason@,
{
}

} // verus!
