//! What a fingerprint asks of the TLS engine before a handshake.

use crate::fingerprint::spec::{CertCompressAlg, EchModel, EchPolicy, Fingerprint, FingerprintModel};
use crate::plan::{
    Argument, ArgumentModel, Call, CallModel, FailureModel, Function, OnFailure, Plan, PlanModel,
    StepModel,
};
use vstd::prelude::*;

verus! {

// --------------------------------------------------------- cipher suites

/// The engine's name for a TLS 1.2 cipher suite. Suites of TLS 1.3 cannot be
/// configured and have none.
pub open spec fn cipher_name(code: u16) -> Option<Seq<char>> {
    if code == 0xC02B {
        Some("ECDHE-ECDSA-AES128-GCM-SHA256"@)
    } else if code == 0xC02F {
        Some("ECDHE-RSA-AES128-GCM-SHA256"@)
    } else if code == 0xC02C {
        Some("ECDHE-ECDSA-AES256-GCM-SHA384"@)
    } else if code == 0xC030 {
        Some("ECDHE-RSA-AES256-GCM-SHA384"@)
    } else if code == 0xCCA9 {
        Some("ECDHE-ECDSA-CHACHA20-POLY1305"@)
    } else if code == 0xCCA8 {
        Some("ECDHE-RSA-CHACHA20-POLY1305"@)
    } else if code == 0xC009 {
        Some("ECDHE-ECDSA-AES128-SHA"@)
    } else if code == 0xC013 {
        Some("ECDHE-RSA-AES128-SHA"@)
    } else if code == 0xC00A {
        Some("ECDHE-ECDSA-AES256-SHA"@)
    } else if code == 0xC014 {
        Some("ECDHE-RSA-AES256-SHA"@)
    } else if code == 0x009C {
        Some("AES128-GCM-SHA256"@)
    } else if code == 0x009D {
        Some("AES256-GCM-SHA384"@)
    } else if code == 0x002F {
        Some("AES128-SHA"@)
    } else if code == 0x0035 {
        Some("AES256-SHA"@)
    } else {
        None
    }
}

/// The content of an optional string slice.
pub open spec fn opt_str(s: Option<&'static str>) -> Option<Seq<char>> {
    match s {
        Some(t) => Some(t@),
        None => None,
    }
}

/// The engine's name for a TLS 1.2 cipher suite.
fn cipher_name_for(code: u16) -> (r: Option<&'static str>)
    ensures
        opt_str(r) == cipher_name(code),
{
    match code {
        0xC02B => Some("ECDHE-ECDSA-AES128-GCM-SHA256"),
        0xC02F => Some("ECDHE-RSA-AES128-GCM-SHA256"),
        0xC02C => Some("ECDHE-ECDSA-AES256-GCM-SHA384"),
        0xC030 => Some("ECDHE-RSA-AES256-GCM-SHA384"),
        0xCCA9 => Some("ECDHE-ECDSA-CHACHA20-POLY1305"),
        0xCCA8 => Some("ECDHE-RSA-CHACHA20-POLY1305"),
        0xC009 => Some("ECDHE-ECDSA-AES128-SHA"),
        0xC013 => Some("ECDHE-RSA-AES128-SHA"),
        0xC00A => Some("ECDHE-ECDSA-AES256-SHA"),
        0xC014 => Some("ECDHE-RSA-AES256-SHA"),
        0x009C => Some("AES128-GCM-SHA256"),
        0x009D => Some("AES256-GCM-SHA384"),
        0x002F => Some("AES128-SHA"),
        0x0035 => Some("AES256-SHA"),
        _ => None,
    }
}

/// The names of the cipher suites that have one, in order.
pub open spec fn cipher_names(codes: Seq<u16>) -> Seq<Seq<char>> {
    codes.filter_map(|c: u16| cipher_name(c))
}

/// The names of the cipher suites that have one.
fn cipher_names_of(codes: &Vec<u16>) -> (r: Vec<&'static str>)
    ensures
        r@.map_values(|s: &'static str| s@) == cipher_names(codes@),
{
    let mut out: Vec<&'static str> = Vec::new();
    let mut i: usize = 0;
    proof {
        reveal(Seq::filter_map);
        assert(out@.map_values(|s: &'static str| s@) =~= cipher_names(codes@.take(0)));
    }
    while i < codes.len()
        invariant
            i <= codes@.len(),
            out@.map_values(|s: &'static str| s@) == cipher_names(codes@.take(i as int)),
        decreases codes@.len() - i,
    {
        let ghost before = out@;
        proof {
            reveal(Seq::filter_map);
            assert(codes@.take(i + 1).drop_last() =~= codes@.take(i as int));
        }
        match cipher_name_for(codes[i]) {
            Some(name) => {
                out.push(name);
                assert(out@.map_values(|s: &'static str| s@) =~= before.map_values(
                    |s: &'static str| s@,
                ).push(name@));
            },
            None => {},
        }
        i = i + 1;
    }
    assert(codes@.take(i as int) =~= codes@);
    out
}

/// Cipher suites go out by name; those without a name are left to the engine,
/// and where none has one, so is the whole list.
pub open spec fn cipher_plan(fp: FingerprintModel) -> PlanModel {
    let names = cipher_names(fp.cipher_suites);
    crate::plan::plan_of(
        if names.len() == 0 {
            seq![]
        } else {
            seq![
                crate::plan::reporting(
                    Function::SetCiphers,
                    ArgumentModel::Text(crate::text::joined(names, ":"@)),
                    "SSL_set_cipher_list"@,
                ),
            ]
        },
    )
}

fn apply_cipher_suites(fp: &Fingerprint) -> (r: Plan)
    ensures
        r@ == cipher_plan(fp@),
{
    let names = cipher_names_of(&fp.cipher_suites);
    let mut plan = Plan::new();
    assert(names@.map_values(|s: &'static str| s@).len() == names@.len());
    if names.len() > 0 {
        plan.report(
            Function::SetCiphers,
            Argument::Text(crate::text::join_strs(&names, ":")),
            "SSL_set_cipher_list",
        );
    }
    assert(plan@.steps =~= cipher_plan(fp@).steps);
    plan
}

// ---------------------------------------------------------------- groups

/// The engine's name for a group.
pub open spec fn group_name(code: u16) -> Option<Seq<char>> {
    if code == 0x0017 {
        Some("P-256"@)
    } else if code == 0x0018 {
        Some("P-384"@)
    } else if code == 0x0019 {
        Some("P-521"@)
    } else if code == 0x001D {
        Some("X25519"@)
    } else if code == 0x001E {
        Some("X448"@)
    } else if code == 0x11EC {
        Some("X25519MLKEM768"@)
    } else if code == 0x6399 {
        Some("X25519Kyber768Draft00"@)
    } else {
        None
    }
}

/// Whether a group is a post-quantum hybrid, which some builds of the engine
/// do not know.
pub open spec fn post_quantum(code: u16) -> bool {
    code == 0x11EC || code == 0x6399
}

/// The engine's name for a group, unless post-quantum groups are to be left
/// out and it is one.
pub open spec fn kept_group(code: u16, hybrids: bool) -> Option<Seq<char>> {
    if !hybrids && post_quantum(code) {
        None
    } else {
        group_name(code)
    }
}

/// The names of the groups that have one, in order.
pub open spec fn group_names(codes: Seq<u16>, hybrids: bool) -> Seq<Seq<char>> {
    codes.filter_map(|c: u16| kept_group(c, hybrids))
}

/// The engine's name for a group, unless it is to be left out.
fn kept_group_for(code: u16, hybrids: bool) -> (r: Option<&'static str>)
    ensures
        opt_str(r) == kept_group(code, hybrids),
{
    match code {
        0x0017 => Some("P-256"),
        0x0018 => Some("P-384"),
        0x0019 => Some("P-521"),
        0x001D => Some("X25519"),
        0x001E => Some("X448"),
        0x11EC => if hybrids {
            Some("X25519MLKEM768")
        } else {
            None
        },
        0x6399 => if hybrids {
            Some("X25519Kyber768Draft00")
        } else {
            None
        },
        _ => None,
    }
}

/// The names of the groups that have one.
fn group_names_of(codes: &Vec<u16>, hybrids: bool) -> (r: Vec<&'static str>)
    ensures
        r@.map_values(|s: &'static str| s@) == group_names(codes@, hybrids),
{
    let mut out: Vec<&'static str> = Vec::new();
    let mut i: usize = 0;
    proof {
        reveal(Seq::filter_map);
        assert(out@.map_values(|s: &'static str| s@) =~= group_names(codes@.take(0), hybrids));
    }
    while i < codes.len()
        invariant
            i <= codes@.len(),
            out@.map_values(|s: &'static str| s@) == group_names(codes@.take(i as int), hybrids),
        decreases codes@.len() - i,
    {
        let ghost before = out@;
        proof {
            reveal(Seq::filter_map);
            assert(codes@.take(i + 1).drop_last() =~= codes@.take(i as int));
        }
        match kept_group_for(codes[i], hybrids) {
            Some(name) => {
                out.push(name);
                assert(out@.map_values(|s: &'static str| s@) =~= before.map_values(
                    |s: &'static str| s@,
                ).push(name@));
            },
            None => {},
        }
        i = i + 1;
    }
    assert(codes@.take(i as int) =~= codes@);
    out
}

/// The call that sets groups by name.
pub open spec fn groups_call(names: Seq<Seq<char>>) -> CallModel {
    CallModel {
        function: Function::SetGroups,
        argument: ArgumentModel::Text(crate::text::joined(names, ":"@)),
    }
}

/// Groups go out by name. Where the engine does not take them, it is asked
/// once more without the post-quantum ones, if any others are left.
pub open spec fn groups_plan(fp: FingerprintModel) -> PlanModel {
    let names = group_names(fp.supported_groups, true);
    let classic = group_names(fp.supported_groups, false);
    crate::plan::plan_of(
        if names.len() == 0 {
            seq![]
        } else {
            seq![
                StepModel {
                    call: groups_call(names),
                    on_failure: if classic.len() == 0 {
                        FailureModel::Report("SSL_set1_groups_list"@)
                    } else {
                        FailureModel::Otherwise(groups_call(classic), "SSL_set1_groups_list"@)
                    },
                },
            ]
        },
    )
}

fn apply_supported_groups(fp: &Fingerprint) -> (r: Plan)
    ensures
        r@ == groups_plan(fp@),
{
    let names = group_names_of(&fp.supported_groups, true);
    let classic = group_names_of(&fp.supported_groups, false);
    let mut plan = Plan::new();
    assert(names@.map_values(|s: &'static str| s@).len() == names@.len());
    assert(classic@.map_values(|s: &'static str| s@).len() == classic@.len());
    if names.len() > 0 {
        let on_failure = if classic.len() == 0 {
            OnFailure::Report("SSL_set1_groups_list")
        } else {
            OnFailure::Otherwise(
                Call {
                    function: Function::SetGroups,
                    argument: Argument::Text(crate::text::join_strs(&classic, ":")),
                },
                "SSL_set1_groups_list",
            )
        };
        plan.add_step(
            Function::SetGroups,
            Argument::Text(crate::text::join_strs(&names, ":")),
            on_failure,
        );
    }
    assert(plan@.steps =~= groups_plan(fp@).steps);
    plan
}

// ------------------------------------------------- algorithms, ALPN, shares

/// Signature algorithms go out by codepoint, all of them, in order.
pub open spec fn signature_plan(fp: FingerprintModel) -> PlanModel {
    crate::plan::plan_of(
        if fp.signature_algorithms.len() == 0 {
            seq![]
        } else {
            seq![
                crate::plan::reporting(
                    Function::SetVerifyAlgorithms,
                    ArgumentModel::Codes(fp.signature_algorithms),
                    "SSL_set_verify_algorithm_prefs"@,
                ),
            ]
        },
    )
}

fn apply_signature_algorithms(fp: &Fingerprint) -> (r: Plan)
    ensures
        r@ == signature_plan(fp@),
{
    let mut plan = Plan::new();
    if fp.signature_algorithms.len() > 0 {
        plan.report(
            Function::SetVerifyAlgorithms,
            Argument::Codes(crate::fingerprint::spec::copy_codes(&fp.signature_algorithms)),
            "SSL_set_verify_algorithm_prefs",
        );
    }
    assert(plan@.steps =~= signature_plan(fp@).steps);
    plan
}

/// What is said of a protocol that cannot go on the wire.
pub open spec fn alpn_fault(name: Seq<char>) -> Seq<char> {
    "ALPN protocol "@ + crate::text::quoted(name) + " length out of range"@
}

/// The call that advertises protocols.
pub open spec fn alpn_step(items: Seq<Seq<u8>>) -> StepModel {
    crate::plan::reporting(
        Function::SetAlpn,
        ArgumentModel::Bytes(crate::lists::encoded(items)),
        "SSL_set_alpn_protos"@,
    )
}

/// The fingerprint's protocols go out as one list; one that is empty or too
/// long is refused.
pub open spec fn alpn_plan(fp: FingerprintModel) -> PlanModel {
    let items = crate::alpn::name_bytes(fp.alpn);
    if fp.alpn.len() == 0 {
        crate::plan::plan_of(seq![])
    } else if crate::lists::proper(items) {
        crate::plan::plan_of(seq![alpn_step(items)])
    } else {
        crate::plan::refused(alpn_fault(fp.alpn[crate::alpn::first_misfit(items)]))
    }
}

/// A list that stands in for the fingerprint's goes out in its place, even an
/// empty one; a protocol that is empty or too long is refused.
pub open spec fn override_plan(list: Seq<Seq<u8>>) -> PlanModel {
    if crate::lists::proper(list) {
        crate::plan::plan_of(seq![alpn_step(list)])
    } else {
        crate::plan::refused(
            alpn_fault(crate::text::lossy(list[crate::alpn::first_misfit(list)])),
        )
    }
}

/// The protocols that are advertised: `offered` where it is given, else the
/// fingerprint's own.
pub open spec fn offer_plan(fp: FingerprintModel, offered: Option<Seq<Seq<u8>>>) -> PlanModel {
    match offered {
        Some(list) => override_plan(list),
        None => alpn_plan(fp),
    }
}

/// The refusal of a protocol that cannot go on the wire.
fn refuse_protocol(name: &str) -> (r: Plan)
    ensures
        r@ == crate::plan::refused(alpn_fault(name@)),
{
    let mut text = String::new();
    text.append("ALPN protocol ");
    text.append(crate::text::quote(name).as_str());
    text.append(" length out of range");
    assert(text@ =~= alpn_fault(name@));
    Plan::refusing(text)
}

fn apply_alpn(fp: &Fingerprint) -> (r: Plan)
    ensures
        r@ == alpn_plan(fp@),
{
    let mut plan = Plan::new();
    if fp.alpn.len() == 0 {
        assert(fp@.alpn.len() == 0);
        return plan;
    }
    let items = crate::alpn::bytes_of(&fp.alpn);
    match crate::alpn::encode(items.as_slice()) {
        Ok(wire) => {
            plan.report(Function::SetAlpn, Argument::Bytes(wire), "SSL_set_alpn_protos");
            assert(plan@.steps =~= alpn_plan(fp@).steps);
            plan
        },
        Err(i) => {
            assert(crate::plan::byte_strings(items@).len() == items@.len());
            assert(crate::alpn::name_bytes(fp@.alpn).len() == fp.alpn@.len());
            refuse_protocol(fp.alpn[i].as_str())
        },
    }
}

fn apply_alpn_override(list: &[Vec<u8>]) -> (r: Plan)
    ensures
        r@ == override_plan(crate::plan::byte_strings(list@)),
{
    let ghost items = crate::plan::byte_strings(list@);
    match crate::alpn::encode(list) {
        Ok(wire) => {
            let mut plan = Plan::new();
            plan.report(Function::SetAlpn, Argument::Bytes(wire), "SSL_set_alpn_protos");
            assert(plan@.steps =~= override_plan(items).steps);
            plan
        },
        Err(i) => {
            assert(items[i as int] == list@[i as int]@);
            let name = crate::text::decode_lossy(list[i].as_slice());
            refuse_protocol(name.as_str())
        },
    }
}

/// Key shares go out by codepoint.
pub open spec fn key_share_plan(fp: FingerprintModel) -> PlanModel {
    crate::plan::plan_of(
        if fp.key_shares.len() == 0 {
            seq![]
        } else {
            seq![
                crate::plan::reporting(
                    Function::SetKeyShares,
                    ArgumentModel::Codes(fp.key_shares),
                    "SSL_set1_client_key_shares"@,
                ),
            ]
        },
    )
}

fn apply_key_shares(fp: &Fingerprint) -> (r: Plan)
    ensures
        r@ == key_share_plan(fp@),
{
    let mut plan = Plan::new();
    if fp.key_shares.len() > 0 {
        plan.report(
            Function::SetKeyShares,
            Argument::Codes(crate::fingerprint::spec::copy_codes(&fp.key_shares)),
            "SSL_set1_client_key_shares",
        );
    }
    assert(plan@.steps =~= key_share_plan(fp@).steps);
    plan
}

// ---------------------------------------------------- settings of a context

/// The check that a connection has a context.
pub open spec fn context_step() -> StepModel {
    StepModel {
        call: CallModel { function: Function::GetContext, argument: ArgumentModel::Nothing },
        on_failure: FailureModel::Refuse("SSL_get_SSL_CTX returned null"@),
    }
}

fn require_context(plan: &mut Plan)
    ensures
        final(plan)@ == old(plan)@.and(context_step()),
{
    plan.add_step(
        Function::GetContext,
        Argument::Nothing,
        OnFailure::Refuse("SSL_get_SSL_CTX returned null"),
    );
}

/// The registration of an algorithm. Where it fails, because the algorithm is
/// registered already, the error is dropped.
pub open spec fn compression_step(code: u16) -> StepModel {
    StepModel {
        call: CallModel {
            function: Function::AddCompression,
            argument: ArgumentModel::Number(code as u64),
        },
        on_failure: FailureModel::Drain,
    }
}

/// The registrations for `algs`: those that can be decompressed, which is
/// brotli alone.
pub open spec fn compression_steps(algs: Seq<CertCompressAlg>) -> Seq<StepModel> {
    algs.filter(|a: CertCompressAlg| a == CertCompressAlg::Brotli).map_values(
        |a: CertCompressAlg| compression_step(a.wire_code()),
    )
}

/// Certificate compression is offered for the algorithms that the library can
/// decompress.
pub open spec fn compression_plan(fp: FingerprintModel) -> PlanModel {
    crate::plan::plan_of(
        if fp.compress_certificate.len() == 0 {
            seq![]
        } else {
            seq![context_step()] + compression_steps(fp.compress_certificate)
        },
    )
}

fn apply_cert_compression(fp: &Fingerprint) -> (r: Plan)
    ensures
        r@ == compression_plan(fp@),
{
    let mut plan = Plan::new();
    if fp.compress_certificate.len() == 0 {
        return plan;
    }
    require_context(&mut plan);
    let ghost algs = fp.compress_certificate@;
    let mut i: usize = 0;
    proof {
        reveal(Seq::filter);
        assert(compression_steps(algs.take(0)) =~= seq![]);
        assert(plan@.steps =~= seq![context_step()] + compression_steps(algs.take(0)));
    }
    while i < fp.compress_certificate.len()
        invariant
            i <= algs.len(),
            algs == fp.compress_certificate@,
            plan@ == crate::plan::plan_of(
                seq![context_step()] + compression_steps(algs.take(i as int)),
            ),
        decreases algs.len() - i,
    {
        let alg = fp.compress_certificate[i];
        let ghost before = compression_steps(algs.take(i as int));
        proof {
            reveal(Seq::filter);
            assert(algs.take(i + 1).drop_last() =~= algs.take(i as int));
        }
        if alg == CertCompressAlg::Brotli {
            plan.add_step(
                Function::AddCompression,
                Argument::Number(alg.codepoint() as u64),
                OnFailure::Drain,
            );
            assert(compression_steps(algs.take(i + 1)) =~= before.push(
                compression_step(alg.wire_code()),
            ));
            assert(plan@.steps =~= seq![context_step()] + compression_steps(algs.take(i + 1)));
        } else {
            assert(compression_steps(algs.take(i + 1)) =~= before);
        }
        i = i + 1;
    }
    assert(algs.take(i as int) =~= algs);
    plan
}

/// OCSP stapling and certificate timestamps are asked for where their
/// extensions are in the order.
pub open spec fn stapling_plan(fp: FingerprintModel) -> PlanModel {
    crate::plan::plan_of(
        (if fp.extensions_order.contains(0x0005) {
            seq![crate::plan::ignoring(Function::EnableOcsp, ArgumentModel::Nothing)]
        } else {
            seq![]
        }) + (if fp.extensions_order.contains(0x0012) {
            seq![crate::plan::ignoring(Function::EnableTimestamps, ArgumentModel::Nothing)]
        } else {
            seq![]
        }),
    )
}

/// Whether `code` is among `codes`.
fn contains_code(codes: &Vec<u16>, code: u16) -> (r: bool)
    ensures
        r == codes@.contains(code),
{
    let mut i: usize = 0;
    while i < codes.len()
        invariant
            i <= codes@.len(),
            forall|j: int| 0 <= j < i ==> codes@[j] != code,
        decreases codes@.len() - i,
    {
        if codes[i] == code {
            assert(codes@[i as int] == code);
            return true;
        }
        i = i + 1;
    }
    false
}

fn apply_stapling(fp: &Fingerprint) -> (r: Plan)
    ensures
        r@ == stapling_plan(fp@),
{
    let mut plan = Plan::new();
    if contains_code(&fp.extensions_order, 0x0005) {
        plan.ignore(Function::EnableOcsp, Argument::Nothing);
    }
    if contains_code(&fp.extensions_order, 0x0012) {
        plan.ignore(Function::EnableTimestamps, Argument::Nothing);
    }
    assert(plan@.steps =~= stapling_plan(fp@).steps);
    plan
}

/// GREASE is switched on or off; among the signature algorithms it is on only
/// where it is on at all.
pub open spec fn grease_plan(fp: FingerprintModel) -> PlanModel {
    crate::plan::plan_of(
        seq![
            context_step(),
            crate::plan::ignoring(Function::SetGrease, ArgumentModel::Flag(fp.grease)),
            crate::plan::ignoring(
                Function::SetGreaseSigalgs,
                ArgumentModel::Flag(fp.grease && fp.grease_sigalgs),
            ),
        ],
    )
}

fn apply_grease(fp: &Fingerprint) -> (r: Plan)
    ensures
        r@ == grease_plan(fp@),
{
    let mut plan = Plan::new();
    require_context(&mut plan);
    plan.ignore(Function::SetGrease, Argument::Flag(fp.grease));
    plan.ignore(Function::SetGreaseSigalgs, Argument::Flag(fp.grease && fp.grease_sigalgs));
    assert(plan@.steps =~= grease_plan(fp@).steps);
    plan
}

/// Permutation is set where the fingerprint lists any extensions.
pub open spec fn order_plan(fp: FingerprintModel) -> PlanModel {
    crate::plan::plan_of(
        if fp.extensions_order.len() == 0 {
            seq![]
        } else {
            seq![
                crate::plan::ignoring(
                    Function::SetPermuteExtensions,
                    ArgumentModel::Flag(fp.permute_extensions),
                ),
            ]
        },
    )
}

fn apply_extensions_order(fp: &Fingerprint) -> (r: Plan)
    ensures
        r@ == order_plan(fp@),
{
    let mut plan = Plan::new();
    if fp.extensions_order.len() > 0 {
        plan.ignore(Function::SetPermuteExtensions, Argument::Flag(fp.permute_extensions));
    }
    assert(plan@.steps =~= order_plan(fp@).steps);
    plan
}

// -------------------------------------------------- ALPS, ECH, trust anchors

/// The content of an optional list of protocols.
pub open spec fn opt_protocols(list: Option<&[Vec<u8>]>) -> Option<Seq<Seq<u8>>> {
    match list {
        Some(v) => Some(crate::plan::byte_strings(v@)),
        None => None,
    }
}

/// Whether a protocol is offered when `offered` replaces the fingerprint's own
/// ALPN list.
pub open spec fn still_offered(protocol: Seq<u8>, offered: Option<Seq<Seq<u8>>>) -> bool {
    offered matches Some(list) ==> list.contains(protocol)
}

/// The announcement of one ALPS protocol.
pub open spec fn alps_step(protocol: Seq<u8>) -> StepModel {
    crate::plan::reporting(
        Function::AddAlps,
        ArgumentModel::Bytes(protocol),
        "SSL_add_application_settings"@,
    )
}

/// The announcements of the ALPS protocols that are still offered.
pub open spec fn alps_steps(protocols: Seq<Seq<u8>>, offered: Option<Seq<Seq<u8>>>) -> Seq<
    StepModel,
> {
    protocols.filter(|b: Seq<u8>| still_offered(b, offered)).map_values(
        |b: Seq<u8>| alps_step(b),
    )
}

/// The codepoint is chosen before any ALPS protocol is announced.
pub open spec fn alps_plan(fp: FingerprintModel, offered: Option<Seq<Seq<u8>>>) -> PlanModel {
    crate::plan::plan_of(
        if fp.alps.len() == 0 {
            seq![]
        } else {
            seq![
                crate::plan::ignoring(
                    Function::SetAlpsCodepoint,
                    ArgumentModel::Flag(fp.alps_use_new_codepoint),
                ),
            ] + alps_steps(crate::alpn::name_bytes(fp.alps), offered)
        },
    )
}

/// Whether a protocol is still offered.
fn is_still_offered(protocol: &[u8], offered: Option<&[Vec<u8>]>) -> (r: bool)
    ensures
        r == still_offered(protocol@, opt_protocols(offered)),
{
    match offered {
        None => true,
        Some(list) => {
            let ghost all = crate::plan::byte_strings(list@);
            let mut i: usize = 0;
            while i < list.len()
                invariant
                    i <= list@.len(),
                    all == crate::plan::byte_strings(list@),
                    opt_protocols(offered) == Some(all),
                    forall|j: int| 0 <= j < i ==> all[j] != protocol@,
                decreases list@.len() - i,
            {
                assert(all[i as int] == list@[i as int]@);
                if crate::alpn::same_bytes(list[i].as_slice(), protocol) {
                    return true;
                }
                i = i + 1;
            }
            false
        },
    }
}

fn apply_alps(fp: &Fingerprint, alpn_override: Option<&[Vec<u8>]>) -> (r: Plan)
    ensures
        r@ == alps_plan(fp@, opt_protocols(alpn_override)),
{
    let mut plan = Plan::new();
    if fp.alps.len() == 0 {
        assert(fp@.alps.len() == 0);
        return plan;
    }
    let ghost offered = opt_protocols(alpn_override);
    let ghost head = crate::plan::ignoring(
        Function::SetAlpsCodepoint,
        ArgumentModel::Flag(fp.alps_use_new_codepoint),
    );
    plan.ignore(Function::SetAlpsCodepoint, Argument::Flag(fp.alps_use_new_codepoint));
    let items = crate::alpn::bytes_of(&fp.alps);
    let ghost all = crate::plan::byte_strings(items@);
    let mut i: usize = 0;
    proof {
        reveal(Seq::filter);
        assert(alps_steps(all.take(0), offered) =~= seq![]);
        assert(plan@.steps =~= seq![head] + alps_steps(all.take(0), offered));
    }
    while i < items.len()
        invariant
            i <= items@.len(),
            all == crate::plan::byte_strings(items@),
            offered == opt_protocols(alpn_override),
            plan@ == crate::plan::plan_of(seq![head] + alps_steps(all.take(i as int), offered)),
        decreases items@.len() - i,
    {
        let ghost before = alps_steps(all.take(i as int), offered);
        proof {
            reveal(Seq::filter);
            assert(all.take(i + 1).drop_last() =~= all.take(i as int));
            assert(all[i as int] == items@[i as int]@);
        }
        if is_still_offered(items[i].as_slice(), alpn_override) {
            plan.report(
                Function::AddAlps,
                Argument::Bytes(vstd::slice::slice_to_vec(items[i].as_slice())),
                "SSL_add_application_settings",
            );
            assert(alps_steps(all.take(i + 1), offered) =~= before.push(
                alps_step(all[i as int]),
            ));
            assert(plan@.steps =~= seq![head] + alps_steps(all.take(i + 1), offered));
        } else {
            assert(alps_steps(all.take(i + 1), offered) =~= before);
        }
        i = i + 1;
    }
    assert(all.take(i as int) =~= all);
    plan
}

/// Nothing, an ECH extension of the right shape, or a real configuration.
pub open spec fn ech_plan(fp: FingerprintModel) -> PlanModel {
    crate::plan::plan_of(
        match fp.ech {
            EchModel::Off => seq![],
            EchModel::Grease => seq![
                crate::plan::ignoring(Function::SetEchGrease, ArgumentModel::Flag(true)),
            ],
            EchModel::Real(b) => seq![ech_config_step(b)],
        },
    )
}

/// The call that offers a real ECH configuration.
pub open spec fn ech_config_step(config: Seq<u8>) -> StepModel {
    crate::plan::reporting(
        Function::SetEchConfig,
        ArgumentModel::Bytes(config),
        "SSL_set1_ech_config_list"@,
    )
}

fn apply_ech(fp: &Fingerprint) -> (r: Plan)
    ensures
        r@ == ech_plan(fp@),
{
    let mut plan = Plan::new();
    match &fp.ech {
        EchPolicy::Off => {},
        EchPolicy::Grease => {
            plan.ignore(Function::SetEchGrease, Argument::Flag(true));
        },
        EchPolicy::Real(config) => {
            plan.report(
                Function::SetEchConfig,
                Argument::Bytes(vstd::slice::slice_to_vec(config.as_slice())),
                "SSL_set1_ech_config_list",
            );
        },
    }
    assert(plan@.steps =~= ech_plan(fp@).steps);
    plan
}

/// Trust-anchor IDs are sent where there is a list, even an empty one.
pub open spec fn trust_anchor_plan(fp: FingerprintModel) -> PlanModel {
    crate::plan::plan_of(
        match fp.trust_anchors {
            None => seq![],
            Some(ids) => seq![
                crate::plan::reporting(
                    Function::SetTrustAnchors,
                    ArgumentModel::Bytes(ids),
                    "SSL_set1_requested_trust_anchors"@,
                ),
            ],
        },
    )
}

fn apply_trust_anchors(fp: &Fingerprint) -> (r: Plan)
    ensures
        r@ == trust_anchor_plan(fp@),
{
    let mut plan = Plan::new();
    match &fp.trust_anchors {
        None => {},
        Some(ids) => {
            plan.report(
                Function::SetTrustAnchors,
                Argument::Bytes(vstd::slice::slice_to_vec(ids.as_slice())),
                "SSL_set1_requested_trust_anchors",
            );
        },
    }
    assert(plan@.steps =~= trust_anchor_plan(fp@).steps);
    plan
}

// ------------------------------------------------------------- all together

/// What applying `fp` asks of the engine. Where `offered` is given, it stands
/// for the fingerprint's ALPN list: it is what is advertised, and ALPS
/// protocols that it lacks are not announced. A fingerprint that is not valid
/// is refused before any call. The record-size limit and the padding length
/// cannot be set and ask for nothing.
pub open spec fn applied(fp: FingerprintModel, offered: Option<Seq<Seq<u8>>>) -> PlanModel {
    if !fp.is_valid() {
        crate::plan::refused(crate::fingerprint::spec::trust_anchor_fault())
    } else {
        cipher_plan(fp).followed_by(groups_plan(fp)).followed_by(signature_plan(fp)).followed_by(
            offer_plan(fp, offered),
        ).followed_by(compression_plan(fp)).followed_by(stapling_plan(fp)).followed_by(
            grease_plan(fp),
        ).followed_by(order_plan(fp)).followed_by(key_share_plan(fp)).followed_by(
            alps_plan(fp, offered),
        ).followed_by(ech_plan(fp)).followed_by(trust_anchor_plan(fp))
    }
}

/// What applying `fp` to a fresh connection asks of the engine.
pub fn apply(fp: &Fingerprint, alpn_override: Option<&[Vec<u8>]>) -> (r: Plan)
    ensures
        r@ == applied(fp@, opt_protocols(alpn_override)),
{
    match fp.validate() {
        Ok(_) => {},
        Err(_) => {
            return Plan::refusing(
                "trust_anchors must be a list of non-empty IDs, each preceded by its length".to_owned(),
            );
        },
    }
    let mut plan = apply_cipher_suites(fp);
    plan.follow(apply_supported_groups(fp));
    plan.follow(apply_signature_algorithms(fp));
    plan.follow(
        match alpn_override {
            Some(list) => apply_alpn_override(list),
            None => apply_alpn(fp),
        },
    );
    plan.follow(apply_cert_compression(fp));
    plan.follow(apply_stapling(fp));
    plan.follow(apply_grease(fp));
    plan.follow(apply_extensions_order(fp));
    plan.follow(apply_key_shares(fp));
    plan.follow(apply_alps(fp, alpn_override));
    plan.follow(apply_ech(fp));
    plan.follow(apply_trust_anchors(fp));
    plan
}

impl Fingerprint {
    /// What applying this fingerprint to a fresh connection asks of the engine.
    pub fn apply_to_ssl(&self) -> (r: Plan)
        ensures
            r@ == applied(self@, None),
    {
        apply(self, None)
    }

    /// The same, with another ALPN list in place of the fingerprint's own.
    pub fn apply_to_ssl_with_alpn_override(&self, alpn_override: &[Vec<u8>]) -> (r: Plan)
        ensures
            r@ == applied(self@, Some(crate::plan::byte_strings(alpn_override@))),
    {
        apply(self, Some(alpn_override))
    }
}

// ------------------------------------------------------------------- laws

/// What is asked for before the ALPS protocols.
spec fn before_alps(fp: FingerprintModel, offered: Option<Seq<Seq<u8>>>) -> PlanModel {
    cipher_plan(fp).followed_by(groups_plan(fp)).followed_by(signature_plan(fp)).followed_by(
        offer_plan(fp, offered),
    ).followed_by(compression_plan(fp)).followed_by(stapling_plan(fp)).followed_by(
        grease_plan(fp),
    ).followed_by(order_plan(fp)).followed_by(key_share_plan(fp))
}

#[verifier::rlimit(40)]
proof fn lemma_every_before_alps(
    fp: FingerprintModel,
    offered: Option<Seq<Seq<u8>>>,
    p: spec_fn(StepModel) -> bool,
)
    requires
        crate::plan::every(cipher_plan(fp).steps, p),
        crate::plan::every(groups_plan(fp).steps, p),
        crate::plan::every(signature_plan(fp).steps, p),
        crate::plan::every(offer_plan(fp, offered).steps, p),
        p(context_step()),
        p(compression_step(CertCompressAlg::Brotli.wire_code())),
        crate::plan::every(stapling_plan(fp).steps, p),
        crate::plan::every(grease_plan(fp).steps, p),
        crate::plan::every(order_plan(fp).steps, p),
        crate::plan::every(key_share_plan(fp).steps, p),
    ensures
        crate::plan::every(before_alps(fp, offered).steps, p),
{
    lemma_compression(fp);
    let registered = compression_plan(fp);
    assert forall|k: int| 0 <= k < registered.steps.len() implies p(
        #[trigger] registered.steps[k],
    ) by {}
    let a1 = cipher_plan(fp).followed_by(groups_plan(fp));
    crate::plan::lemma_every_followed(cipher_plan(fp), groups_plan(fp), p);
    let a2 = a1.followed_by(signature_plan(fp));
    crate::plan::lemma_every_followed(a1, signature_plan(fp), p);
    let own = offer_plan(fp, offered);
    let a3 = a2.followed_by(own);
    crate::plan::lemma_every_followed(a2, own, p);
    let a4 = a3.followed_by(registered);
    crate::plan::lemma_every_followed(a3, registered, p);
    let a5 = a4.followed_by(stapling_plan(fp));
    crate::plan::lemma_every_followed(a4, stapling_plan(fp), p);
    let a6 = a5.followed_by(grease_plan(fp));
    crate::plan::lemma_every_followed(a5, grease_plan(fp), p);
    let a7 = a6.followed_by(order_plan(fp));
    crate::plan::lemma_every_followed(a6, order_plan(fp), p);
    crate::plan::lemma_every_followed(a7, key_share_plan(fp), p);
}

#[verifier::rlimit(40)]
proof fn lemma_every_applied(
    fp: FingerprintModel,
    offered: Option<Seq<Seq<u8>>>,
    p: spec_fn(StepModel) -> bool,
)
    requires
        crate::plan::every(before_alps(fp, offered).steps, p),
        crate::plan::every(alps_plan(fp, offered).steps, p),
        crate::plan::every(ech_plan(fp).steps, p),
        crate::plan::every(trust_anchor_plan(fp).steps, p),
    ensures
        crate::plan::every(applied(fp, offered).steps, p),
{
    let a8 = before_alps(fp, offered);
    let a9 = a8.followed_by(alps_plan(fp, offered));
    crate::plan::lemma_every_followed(a8, alps_plan(fp, offered), p);
    let a10 = a9.followed_by(ech_plan(fp));
    crate::plan::lemma_every_followed(a9, ech_plan(fp), p);
    crate::plan::lemma_every_followed(a10, trust_anchor_plan(fp), p);
}

/// Whether a step announces a protocol that is still offered.
pub open spec fn announces(step: StepModel, offered: Option<Seq<Seq<u8>>>) -> bool {
    exists|b: Seq<u8>| step == #[trigger] alps_step(b) && still_offered(b, offered)
}

proof fn lemma_alps_offered(protocols: Seq<Seq<u8>>, offered: Option<Seq<Seq<u8>>>)
    ensures
        forall|i: int|
            0 <= i < alps_steps(protocols, offered).len() ==> announces(
                #[trigger] alps_steps(protocols, offered)[i],
                offered,
            ),
{
    let keep = |b: Seq<u8>| still_offered(b, offered);
    let kept = protocols.filter(keep);
    let steps = alps_steps(protocols, offered);
    assert forall|i: int| 0 <= i < steps.len() implies announces(#[trigger] steps[i], offered) by {
        protocols.lemma_filter_pred(keep, i);
        assert(keep(kept[i]));
        assert(steps[i] == alps_step(kept[i]));
    }
}

/// What holds of a step when `list` replaces the fingerprint's ALPN list: the
/// only protocols that it advertises are those of `list`, and it announces no
/// ALPS protocol that `list` lacks.
pub open spec fn respects_override(step: StepModel, list: Seq<Seq<u8>>) -> bool {
    &&& step.call.function == Function::SetAlpn ==> step == alpn_step(list)
    &&& step.call.function == Function::AddAlps ==> exists|b: Seq<u8>|
        #[trigger] list.contains(b) && step.call.argument == ArgumentModel::Bytes(b)
}

/// Where the caller has set an ALPN list, no other list is advertised, and ALPS
/// is announced for no protocol outside it.
#[verifier::rlimit(40)]
pub proof fn law_override_is_respected(fp: FingerprintModel, list: Seq<Seq<u8>>, i: int)
    requires
        0 <= i < applied(fp, Some(list)).steps.len(),
    ensures
        respects_override(applied(fp, Some(list)).steps[i], list),
{
    let offered = Some(list);
    let p = |s: StepModel| respects_override(s, list);
    assert(crate::plan::every(alps_plan(fp, offered).steps, p)) by {
        let protocols = crate::alpn::name_bytes(fp.alps);
        lemma_alps_offered(protocols, offered);
        let steps = alps_plan(fp, offered).steps;
        assert forall|k: int| 0 <= k < steps.len() implies p(#[trigger] steps[k]) by {
            if k > 0 {
                assert(steps[k] == alps_steps(protocols, offered)[k - 1]);
                let b = choose|b: Seq<u8>|
                    steps[k] == #[trigger] alps_step(b) && still_offered(b, offered);
                assert(list.contains(b));
            }
        }
    }
    lemma_every_before_alps(fp, offered, p);
    lemma_every_applied(fp, offered, p);
    assert(p(applied(fp, offered).steps[i]));
}

/// Where the caller has set an ALPN list and nothing is refused, that list is
/// advertised, whatever the fingerprint says.
pub proof fn law_override_is_advertised(fp: FingerprintModel, list: Seq<Seq<u8>>)
    requires
        fp.is_valid(),
        crate::lists::proper(list),
    ensures
        applied(fp, Some(list)).refusal is None,
        applied(fp, Some(list)).steps.contains(alpn_step(list)),
{
    let offer = offer_plan(fp, Some(list));
    assert(offer.steps[0] == alpn_step(list));
    law_everything_asked_for_is_done(fp, Some(list), alpn_step(list));
}

/// An ALPN list of the caller changes nothing but ALPN and ALPS: every other
/// call is made exactly where it is made without one.
pub proof fn law_override_changes_nothing_else(
    fp: FingerprintModel,
    list: Seq<Seq<u8>>,
    step: StepModel,
)
    requires
        applied(fp, Some(list)).refusal is None,
        applied(fp, None).refusal is None,
        step.call.function != Function::SetAlpn,
        step.call.function != Function::AddAlps,
    ensures
        applied(fp, Some(list)).steps.contains(step) == applied(fp, None).steps.contains(step),
{
    law_everything_asked_for_is_done(fp, Some(list), step);
    law_everything_asked_for_is_done(fp, None, step);
    lemma_only_the_codepoint(fp, Some(list), step);
    lemma_only_the_codepoint(fp, None, step);
}

proof fn lemma_only_the_codepoint(
    fp: FingerprintModel,
    offered: Option<Seq<Seq<u8>>>,
    step: StepModel,
)
    requires
        step.call.function != Function::AddAlps,
    ensures
        alps_plan(fp, offered).steps.contains(step) == (fp.alps.len() > 0 && step
            == crate::plan::ignoring(
            Function::SetAlpsCodepoint,
            ArgumentModel::Flag(fp.alps_use_new_codepoint),
        )),
{
    let protocols = crate::alpn::name_bytes(fp.alps);
    lemma_alps_offered(protocols, offered);
    let steps = alps_plan(fp, offered).steps;
    if fp.alps.len() > 0 {
        assert(steps[0].call.function == Function::SetAlpsCodepoint);
        if steps.contains(step) {
            let k = choose|k: int| 0 <= k < steps.len() && steps[k] == step;
            if k > 0 {
                assert(steps[k] == alps_steps(protocols, offered)[k - 1]);
            }
        }
    }
}

proof fn lemma_compression(fp: FingerprintModel)
    ensures
        forall|i: int|
            0 <= i < compression_plan(fp).steps.len() ==> {
                let s = #[trigger] compression_plan(fp).steps[i];
                s == context_step() || s == compression_step(CertCompressAlg::Brotli.wire_code())
            },
{
    let keep = |a: CertCompressAlg| a == CertCompressAlg::Brotli;
    let algs = fp.compress_certificate;
    let kept = algs.filter(keep);
    let steps = compression_plan(fp).steps;
    assert forall|i: int| 0 <= i < steps.len() implies {
        let s = #[trigger] steps[i];
        s == context_step() || s == compression_step(CertCompressAlg::Brotli.wire_code())
    } by {
        if i > 0 {
            algs.lemma_filter_pred(keep, i - 1);
            assert(keep(kept[i - 1]));
            assert(steps[i] == compression_steps(algs)[i - 1]);
            assert(compression_steps(algs)[i - 1] == compression_step(kept[i - 1].wire_code()));
        }
    }
}

/// Whether a function shapes a ClientHello. None of them has to do with
/// verification, hostnames or version bounds.
pub open spec fn is_shaping(function: Function) -> bool {
    match function {
        Function::SetCiphers | Function::SetGroups | Function::SetVerifyAlgorithms => true,
        Function::SetAlpn | Function::GetContext | Function::AddCompression => true,
        Function::EnableOcsp | Function::EnableTimestamps | Function::SetGrease => true,
        Function::SetGreaseSigalgs | Function::SetPermuteExtensions => true,
        Function::SetKeyShares | Function::SetAlpsCodepoint | Function::AddAlps => true,
        Function::SetEchGrease | Function::SetEchConfig | Function::SetTrustAnchors => true,
        _ => false,
    }
}

/// A fingerprint shapes the ClientHello and touches nothing else: neither how
/// certificates and hostnames are verified nor which versions are spoken.
#[verifier::rlimit(40)]
pub proof fn law_fingerprint_only_shapes(
    fp: FingerprintModel,
    offered: Option<Seq<Seq<u8>>>,
    i: int,
)
    requires
        0 <= i < applied(fp, offered).steps.len(),
    ensures
        is_shaping(applied(fp, offered).steps[i].call.function),
{
    let p = |s: StepModel| is_shaping(s.call.function);
    assert(crate::plan::every(alps_plan(fp, offered).steps, p)) by {
        let protocols = crate::alpn::name_bytes(fp.alps);
        lemma_alps_offered(protocols, offered);
        let steps = alps_plan(fp, offered).steps;
        assert forall|k: int| 0 <= k < steps.len() implies p(#[trigger] steps[k]) by {
            if k > 0 {
                assert(steps[k] == alps_steps(protocols, offered)[k - 1]);
            }
        }
    }
    lemma_every_before_alps(fp, offered, p);
    lemma_every_applied(fp, offered, p);
    assert(p(applied(fp, offered).steps[i]));
}

/// What holds of a step of any fingerprint: compression is registered for
/// brotli alone, and a step whose failure is retried sets groups.
pub open spec fn is_sound_step(step: StepModel) -> bool {
    &&& step.call.function == Function::AddCompression ==> step.call.argument
        == ArgumentModel::Number(2) && step.on_failure is Drain
    &&& step.on_failure is Otherwise ==> step.call.function == Function::SetGroups
}

/// Only algorithms that the library can decompress are registered, and only
/// the list of groups is ever retried.
#[verifier::rlimit(40)]
pub proof fn law_only_brotli_is_registered(
    fp: FingerprintModel,
    offered: Option<Seq<Seq<u8>>>,
    i: int,
)
    requires
        0 <= i < applied(fp, offered).steps.len(),
    ensures
        is_sound_step(applied(fp, offered).steps[i]),
{
    let p = |s: StepModel| is_sound_step(s);
    assert(crate::plan::every(alps_plan(fp, offered).steps, p)) by {
        let protocols = crate::alpn::name_bytes(fp.alps);
        lemma_alps_offered(protocols, offered);
        let steps = alps_plan(fp, offered).steps;
        assert forall|k: int| 0 <= k < steps.len() implies p(#[trigger] steps[k]) by {
            if k > 0 {
                assert(steps[k] == alps_steps(protocols, offered)[k - 1]);
            }
        }
    }
    lemma_every_before_alps(fp, offered, p);
    lemma_every_applied(fp, offered, p);
    assert(p(applied(fp, offered).steps[i]));
}

/// The ALPS codepoint is chosen before any ALPS protocol is announced.
#[verifier::rlimit(40)]
pub proof fn law_alps_codepoint_comes_first(
    fp: FingerprintModel,
    offered: Option<Seq<Seq<u8>>>,
    i: int,
)
    requires
        0 <= i < applied(fp, offered).steps.len(),
        applied(fp, offered).steps[i].call.function == Function::AddAlps,
    ensures
        exists|j: int|
            0 <= j < i && #[trigger] applied(fp, offered).steps[j] == crate::plan::ignoring(
                Function::SetAlpsCodepoint,
                ArgumentModel::Flag(fp.alps_use_new_codepoint),
            ),
{
    let p = |s: StepModel| s.call.function != Function::AddAlps;
    let before = before_alps(fp, offered);
    let alps = alps_plan(fp, offered);
    let steps = applied(fp, offered).steps;
    lemma_every_before_alps(fp, offered, p);
    let n = before.steps.len() as int;
    if i < n {
        assert(steps[i] == before.steps[i]);
        assert(p(before.steps[i]));
    }
    if before.refusal is None {
        let k = i - n;
        if k < alps.steps.len() {
            assert(steps[i] == alps.steps[k]);
            assert(steps[n] == alps.steps[0]);
        } else {
            let tail = ech_plan(fp).steps + trust_anchor_plan(fp).steps;
            assert(steps[i] == tail[k - alps.steps.len()]);
            assert(crate::plan::every(ech_plan(fp).steps, p));
            assert(crate::plan::every(trust_anchor_plan(fp).steps, p));
        }
    }
}

/// Whether `part` stands in `text` at position `i`.
pub open spec fn stands_at(text: Seq<char>, part: Seq<char>, i: int) -> bool {
    0 <= i <= text.len() - part.len() && text.subrange(i, i + part.len()) == part
}

/// Whether `part` stands somewhere in `text`.
pub open spec fn holds_text(text: Seq<char>, part: Seq<char>) -> bool {
    exists|i: int| stands_at(text, part, i)
}

proof fn lemma_holds_not(text: Seq<char>, part: Seq<char>)
    requires
        text.len() <= 6,
        part.len() == 5,
        text.len() >= 5 ==> text[0] != part[0],
        text.len() >= 6 ==> text[1] != part[0],
    ensures
        !holds_text(text, part),
{
    assert forall|i: int| !stands_at(text, part, i) by {
        if 0 <= i <= text.len() - part.len() {
            assert(text.subrange(i, i + part.len())[0] == text[i]);
        }
    }
}

/// The post-quantum groups are those whose names speak of ML-KEM or Kyber.
pub proof fn law_post_quantum_names(code: u16)
    ensures
        group_name(code) matches Some(name) ==> post_quantum(code) == (holds_text(name, "MLKEM"@)
            || holds_text(name, "Kyber"@)),
{
    reveal_strlit("MLKEM");
    reveal_strlit("Kyber");
    reveal_strlit("P-256");
    reveal_strlit("P-384");
    reveal_strlit("P-521");
    reveal_strlit("X25519");
    reveal_strlit("X448");
    reveal_strlit("X25519MLKEM768");
    reveal_strlit("X25519Kyber768Draft00");
    assert("X25519MLKEM768"@.subrange(6, 11) =~= "MLKEM"@);
    assert("X25519Kyber768Draft00"@.subrange(6, 11) =~= "Kyber"@);
    match group_name(code) {
        Some(name) => {
            if post_quantum(code) {
                assert(stands_at(name, "MLKEM"@, 6) || stands_at(name, "Kyber"@, 6));
            } else {
                lemma_holds_not(name, "MLKEM"@);
                lemma_holds_not(name, "Kyber"@);
            }
        },
        None => {},
    }
}

/// Whether some field of the fingerprint asks for this step.
pub open spec fn asked_for(
    fp: FingerprintModel,
    offered: Option<Seq<Seq<u8>>>,
    step: StepModel,
) -> bool {
    ||| cipher_plan(fp).steps.contains(step)
    ||| groups_plan(fp).steps.contains(step)
    ||| signature_plan(fp).steps.contains(step)
    ||| offer_plan(fp, offered).steps.contains(step)
    ||| compression_plan(fp).steps.contains(step)
    ||| stapling_plan(fp).steps.contains(step)
    ||| grease_plan(fp).steps.contains(step)
    ||| order_plan(fp).steps.contains(step)
    ||| key_share_plan(fp).steps.contains(step)
    ||| alps_plan(fp, offered).steps.contains(step)
    ||| ech_plan(fp).steps.contains(step)
    ||| trust_anchor_plan(fp).steps.contains(step)
}

proof fn lemma_followed_contains(a: PlanModel, b: PlanModel, step: StepModel)
    requires
        a.refusal is None,
    ensures
        a.followed_by(b).steps.contains(step) == (a.steps.contains(step) || b.steps.contains(step)),
{
    let all = a.followed_by(b).steps;
    if a.steps.contains(step) {
        let i = choose|i: int| 0 <= i < a.steps.len() && a.steps[i] == step;
        assert(all[i] == step);
    }
    if b.steps.contains(step) {
        let i = choose|i: int| 0 <= i < b.steps.len() && b.steps[i] == step;
        assert(all[a.steps.len() + i] == step);
    }
    if all.contains(step) {
        let i = choose|i: int| 0 <= i < all.len() && all[i] == step;
        if i < a.steps.len() {
            assert(a.steps[i] == step);
        } else {
            assert(b.steps[i - a.steps.len()] == step);
        }
    }
}

/// Unless a fingerprint is refused, applying it makes exactly the calls that
/// its fields ask for: none is dropped, and none is made beyond them.
#[verifier::rlimit(40)]
pub proof fn law_everything_asked_for_is_done(
    fp: FingerprintModel,
    offered: Option<Seq<Seq<u8>>>,
    step: StepModel,
)
    requires
        applied(fp, offered).refusal is None,
    ensures
        applied(fp, offered).steps.contains(step) == asked_for(fp, offered, step),
{
    let a1 = cipher_plan(fp).followed_by(groups_plan(fp));
    lemma_followed_contains(cipher_plan(fp), groups_plan(fp), step);
    let a2 = a1.followed_by(signature_plan(fp));
    lemma_followed_contains(a1, signature_plan(fp), step);
    let own = offer_plan(fp, offered);
    let a3 = a2.followed_by(own);
    lemma_followed_contains(a2, own, step);
    let a4 = a3.followed_by(compression_plan(fp));
    lemma_followed_contains(a3, compression_plan(fp), step);
    let a5 = a4.followed_by(stapling_plan(fp));
    lemma_followed_contains(a4, stapling_plan(fp), step);
    let a6 = a5.followed_by(grease_plan(fp));
    lemma_followed_contains(a5, grease_plan(fp), step);
    let a7 = a6.followed_by(order_plan(fp));
    lemma_followed_contains(a6, order_plan(fp), step);
    let a8 = a7.followed_by(key_share_plan(fp));
    lemma_followed_contains(a7, key_share_plan(fp), step);
    let a9 = a8.followed_by(alps_plan(fp, offered));
    lemma_followed_contains(a8, alps_plan(fp, offered), step);
    let a10 = a9.followed_by(ech_plan(fp));
    lemma_followed_contains(a9, ech_plan(fp), step);
    lemma_followed_contains(a10, trust_anchor_plan(fp), step);
}

// ----------------------------------------------- what each field asks for

/// What a field of a fingerprint gives to a function is what the function's
/// last call is given.
#[verifier::rlimit(40)]
proof fn lemma_field(
    fp: FingerprintModel,
    offered: Option<Seq<Seq<u8>>>,
    function: Function,
    argument: Option<ArgumentModel>,
    step: StepModel,
)
    requires
        applied(fp, offered).refusal is None,
        function != Function::AddAlps,
        function != Function::AddCompression,
        function != Function::GetContext,
        crate::plan::every(cipher_plan(fp).steps, crate::plan::gives(function, argument)),
        crate::plan::every(groups_plan(fp).steps, crate::plan::gives(function, argument)),
        crate::plan::every(signature_plan(fp).steps, crate::plan::gives(function, argument)),
        crate::plan::every(offer_plan(fp, offered).steps, crate::plan::gives(function, argument)),
        crate::plan::every(stapling_plan(fp).steps, crate::plan::gives(function, argument)),
        crate::plan::every(grease_plan(fp).steps, crate::plan::gives(function, argument)),
        crate::plan::every(order_plan(fp).steps, crate::plan::gives(function, argument)),
        crate::plan::every(key_share_plan(fp).steps, crate::plan::gives(function, argument)),
        fp.alps.len() > 0 && function == Function::SetAlpsCodepoint ==> argument == Some(
            ArgumentModel::Flag(fp.alps_use_new_codepoint),
        ),
        crate::plan::every(ech_plan(fp).steps, crate::plan::gives(function, argument)),
        crate::plan::every(trust_anchor_plan(fp).steps, crate::plan::gives(function, argument)),
        argument is Some ==> asked_for(fp, offered, step) && step.call.function == function,
    ensures
        crate::plan::last_argument(applied(fp, offered).steps, function) == argument,
{
    let p = crate::plan::gives(function, argument);
    let steps = applied(fp, offered).steps;
    assert(crate::plan::every(alps_plan(fp, offered).steps, p)) by {
        let protocols = crate::alpn::name_bytes(fp.alps);
        lemma_alps_offered(protocols, offered);
        let all = alps_plan(fp, offered).steps;
        assert forall|k: int| 0 <= k < all.len() implies p(#[trigger] all[k]) by {
            if k > 0 {
                assert(all[k] == alps_steps(protocols, offered)[k - 1]);
            }
        }
    }
    lemma_every_before_alps(fp, offered, p);
    lemma_every_applied(fp, offered, p);
    let mut at: int = 0;
    if argument is Some {
        law_everything_asked_for_is_done(fp, offered, step);
        at = choose|i: int| 0 <= i < steps.len() && steps[i] == step;
    }
    crate::plan::lemma_given(steps, function, argument, at);
}

/// A key share is sent for exactly the groups that the fingerprint lists, in
/// its order; where it lists none, the engine's own choice stands.
pub proof fn law_key_shares_are_sent(fp: FingerprintModel, offered: Option<Seq<Seq<u8>>>)
    requires
        applied(fp, offered).refusal is None,
    ensures
        crate::plan::last_argument(applied(fp, offered).steps, Function::SetKeyShares) == (
        if fp.key_shares.len() > 0 {
            Some(ArgumentModel::Codes(fp.key_shares))
        } else {
            None
        }),
{
    let argument = if fp.key_shares.len() > 0 {
        Some(ArgumentModel::Codes(fp.key_shares))
    } else {
        None
    };
    let step = key_share_plan(fp).steps[0];
    assert(fp.key_shares.len() > 0 ==> key_share_plan(fp).steps.contains(step));
    lemma_field(fp, offered, Function::SetKeyShares, argument, step);
}

/// The signature algorithms go out as the fingerprint lists them.
pub proof fn law_signature_algorithms_are_sent(
    fp: FingerprintModel,
    offered: Option<Seq<Seq<u8>>>,
)
    requires
        applied(fp, offered).refusal is None,
    ensures
        crate::plan::last_argument(applied(fp, offered).steps, Function::SetVerifyAlgorithms) == (
        if fp.signature_algorithms.len() > 0 {
            Some(ArgumentModel::Codes(fp.signature_algorithms))
        } else {
            None
        }),
{
    let argument = if fp.signature_algorithms.len() > 0 {
        Some(ArgumentModel::Codes(fp.signature_algorithms))
    } else {
        None
    };
    let step = signature_plan(fp).steps[0];
    assert(fp.signature_algorithms.len() > 0 ==> signature_plan(fp).steps.contains(step));
    lemma_field(fp, offered, Function::SetVerifyAlgorithms, argument, step);
}

/// Where the fingerprint lists extensions, they are permuted exactly where it
/// says so.
pub proof fn law_permutation_is_set(fp: FingerprintModel, offered: Option<Seq<Seq<u8>>>)
    requires
        applied(fp, offered).refusal is None,
    ensures
        crate::plan::last_argument(applied(fp, offered).steps, Function::SetPermuteExtensions) == (
        if fp.extensions_order.len() > 0 {
            Some(ArgumentModel::Flag(fp.permute_extensions))
        } else {
            None
        }),
{
    let argument = if fp.extensions_order.len() > 0 {
        Some(ArgumentModel::Flag(fp.permute_extensions))
    } else {
        None
    };
    let step = order_plan(fp).steps[0];
    assert(fp.extensions_order.len() > 0 ==> order_plan(fp).steps.contains(step));
    lemma_field(fp, offered, Function::SetPermuteExtensions, argument, step);
}

/// The ECH policy decides what is offered: nothing, an extension of the right
/// shape, or the very configuration that the fingerprint holds.
pub proof fn law_ech_follows_the_policy(fp: FingerprintModel, offered: Option<Seq<Seq<u8>>>)
    requires
        applied(fp, offered).refusal is None,
    ensures
        crate::plan::last_argument(applied(fp, offered).steps, Function::SetEchGrease) == (
        if fp.ech is Grease {
            Some(ArgumentModel::Flag(true))
        } else {
            None
        }),
        crate::plan::last_argument(applied(fp, offered).steps, Function::SetEchConfig) == (
        match fp.ech {
            EchModel::Real(config) => Some(ArgumentModel::Bytes(config)),
            _ => None,
        }),
{
    let grease = if fp.ech is Grease {
        Some(ArgumentModel::Flag(true))
    } else {
        None
    };
    let config = match fp.ech {
        EchModel::Real(config) => Some(ArgumentModel::Bytes(config)),
        _ => None,
    };
    let step = ech_plan(fp).steps[0];
    assert(!(fp.ech is Off) ==> ech_plan(fp).steps.contains(step));
    lemma_field(fp, offered, Function::SetEchGrease, grease, step);
    lemma_field(fp, offered, Function::SetEchConfig, config, step);
}

/// OCSP stapling is asked for exactly where `status_request` is among the
/// extensions, and certificate timestamps exactly where
/// `signed_certificate_timestamp` is.
pub proof fn law_stapling_follows_the_order(fp: FingerprintModel, offered: Option<Seq<Seq<u8>>>)
    requires
        applied(fp, offered).refusal is None,
    ensures
        crate::plan::last_argument(applied(fp, offered).steps, Function::EnableOcsp) is Some
            <==> fp.extensions_order.contains(5),
        crate::plan::last_argument(applied(fp, offered).steps, Function::EnableTimestamps) is Some
            <==> fp.extensions_order.contains(18),
{
    let ocsp = if fp.extensions_order.contains(5) {
        Some(ArgumentModel::Nothing)
    } else {
        None
    };
    let stamps = if fp.extensions_order.contains(18) {
        Some(ArgumentModel::Nothing)
    } else {
        None
    };
    let steps = stapling_plan(fp).steps;
    assert(fp.extensions_order.contains(5) ==> steps.contains(steps[0]));
    assert(fp.extensions_order.contains(18) ==> steps.contains(steps.last()));
    lemma_field(fp, offered, Function::EnableOcsp, ocsp, steps[0]);
    lemma_field(fp, offered, Function::EnableTimestamps, stamps, steps.last());
}

/// GREASE is on exactly where the fingerprint has it on; among the signature
/// algorithms it needs both.
pub proof fn law_grease_follows_the_flags(fp: FingerprintModel, offered: Option<Seq<Seq<u8>>>)
    requires
        applied(fp, offered).refusal is None,
    ensures
        crate::plan::last_argument(applied(fp, offered).steps, Function::SetGrease) == Some(
            ArgumentModel::Flag(fp.grease),
        ),
        crate::plan::last_argument(applied(fp, offered).steps, Function::SetGreaseSigalgs) == Some(
            ArgumentModel::Flag(fp.grease && fp.grease_sigalgs),
        ),
{
    let steps = grease_plan(fp).steps;
    assert(steps.contains(steps[1]) && steps.contains(steps[2]));
    lemma_field(
        fp,
        offered,
        Function::SetGrease,
        Some(ArgumentModel::Flag(fp.grease)),
        steps[1],
    );
    lemma_field(
        fp,
        offered,
        Function::SetGreaseSigalgs,
        Some(ArgumentModel::Flag(fp.grease && fp.grease_sigalgs)),
        steps[2],
    );
}

/// The trust-anchor IDs go out as the fingerprint holds them, even an empty
/// list; without a list nothing is sent.
pub proof fn law_trust_anchors_are_sent(fp: FingerprintModel, offered: Option<Seq<Seq<u8>>>)
    requires
        applied(fp, offered).refusal is None,
    ensures
        crate::plan::last_argument(applied(fp, offered).steps, Function::SetTrustAnchors) == (
        match fp.trust_anchors {
            Some(ids) => Some(ArgumentModel::Bytes(ids)),
            None => None,
        }),
{
    let argument = match fp.trust_anchors {
        Some(ids) => Some(ArgumentModel::Bytes(ids)),
        None => None,
    };
    let step = trust_anchor_plan(fp).steps[0];
    assert(fp.trust_anchors is Some ==> trust_anchor_plan(fp).steps.contains(step));
    lemma_field(fp, offered, Function::SetTrustAnchors, argument, step);
}

/// Without a list of the caller's, the fingerprint's own protocols are
/// advertised: the UTF-8 bytes of each name behind their length, in order.
/// Where it has none, nothing is said of them.
pub proof fn law_own_alpn_is_advertised(fp: FingerprintModel)
    requires
        applied(fp, None).refusal is None,
    ensures
        crate::plan::last_argument(applied(fp, None).steps, Function::SetAlpn) == (
        if fp.alpn.len() > 0 {
            Some(
                ArgumentModel::Bytes(
                    crate::lists::encoded(
                        fp.alpn.map_values(|n: Seq<char>| vstd::utf8::encode_utf8(n)),
                    ),
                ),
            )
        } else {
            None
        }),
{
    let items = fp.alpn.map_values(|n: Seq<char>| vstd::utf8::encode_utf8(n));
    assert(items =~= crate::alpn::name_bytes(fp.alpn));
    let argument = if fp.alpn.len() > 0 {
        Some(ArgumentModel::Bytes(crate::lists::encoded(items)))
    } else {
        None
    };
    let step = alpn_plan(fp).steps[0];
    assert(fp.alpn.len() > 0 ==> offer_plan(fp, None).steps.contains(step));
    lemma_field(fp, None, Function::SetAlpn, argument, step);
}

/// The cipher suites go out by the engine's names for them, in order, with
/// colons between them; suites without a name are left to the engine.
pub proof fn law_cipher_suites_are_set(fp: FingerprintModel, offered: Option<Seq<Seq<u8>>>)
    requires
        applied(fp, offered).refusal is None,
    ensures
        ({
            let names = fp.cipher_suites.filter_map(|c: u16| cipher_name(c));
            crate::plan::last_argument(applied(fp, offered).steps, Function::SetCiphers) == (
            if names.len() > 0 {
                Some(ArgumentModel::Text(crate::text::joined(names, ":"@)))
            } else {
                None
            })
        }),
{
    let names = fp.cipher_suites.filter_map(|c: u16| cipher_name(c));
    assert(names == cipher_names(fp.cipher_suites));
    let argument = if names.len() > 0 {
        Some(ArgumentModel::Text(crate::text::joined(names, ":"@)))
    } else {
        None
    };
    let step = cipher_plan(fp).steps[0];
    assert(names.len() > 0 ==> cipher_plan(fp).steps.contains(step));
    lemma_field(fp, offered, Function::SetCiphers, argument, step);
}

/// The groups go out by the engine's names for them, in order, with colons
/// between them. Where the engine refuses them and some are not post-quantum,
/// it is asked once more for those alone; otherwise its refusal is reported.
#[verifier::rlimit(40)]
pub proof fn law_groups_are_set(fp: FingerprintModel, offered: Option<Seq<Seq<u8>>>, i: int)
    requires
        applied(fp, offered).refusal is None,
        0 <= i < applied(fp, offered).steps.len(),
        applied(fp, offered).steps[i].call.function == Function::SetGroups,
    ensures
        ({
            let names = fp.supported_groups.filter_map(|c: u16| group_name(c));
            let others = fp.supported_groups.filter_map(
                |c: u16|
                    if c == 0x11EC || c == 0x6399 {
                        None
                    } else {
                        group_name(c)
                    },
            );
            let step = applied(fp, offered).steps[i];
            &&& names.len() > 0
            &&& step.call.argument == ArgumentModel::Text(crate::text::joined(names, ":"@))
            &&& others.len() == 0 ==> step.on_failure == FailureModel::Report(
                "SSL_set1_groups_list"@,
            )
            &&& others.len() > 0 ==> step.on_failure == FailureModel::Otherwise(
                CallModel {
                    function: Function::SetGroups,
                    argument: ArgumentModel::Text(crate::text::joined(others, ":"@)),
                },
                "SSL_set1_groups_list"@,
            )
        }),
{
    let all = |c: u16| group_name(c);
    let few = |c: u16|
        if c == 0x11EC || c == 0x6399 {
            None
        } else {
            group_name(c)
        };
    lemma_same_names(fp.supported_groups, all, |c: u16| kept_group(c, true));
    lemma_same_names(fp.supported_groups, few, |c: u16| kept_group(c, false));
    let p = |x: StepModel|
        x.call.function == Function::SetGroups ==> groups_plan(fp).steps.len() > 0 && x
            == groups_plan(fp).steps[0];
    assert(crate::plan::every(alps_plan(fp, offered).steps, p)) by {
        let protocols = crate::alpn::name_bytes(fp.alps);
        lemma_alps_offered(protocols, offered);
        let steps = alps_plan(fp, offered).steps;
        assert forall|k: int| 0 <= k < steps.len() implies p(#[trigger] steps[k]) by {
            if k > 0 {
                assert(steps[k] == alps_steps(protocols, offered)[k - 1]);
            }
        }
    }
    lemma_every_before_alps(fp, offered, p);
    lemma_every_applied(fp, offered, p);
    assert(p(applied(fp, offered).steps[i]));
}

proof fn lemma_same_names(
    codes: Seq<u16>,
    f: spec_fn(u16) -> Option<Seq<char>>,
    g: spec_fn(u16) -> Option<Seq<char>>,
)
    requires
        forall|c: u16| #[trigger] f(c) == g(c),
    ensures
        codes.filter_map(f) == codes.filter_map(g),
    decreases codes.len(),
{
    reveal(Seq::filter_map);
    if codes.len() > 0 {
        lemma_same_names(codes.drop_last(), f, g);
        assert(f(codes.last()) == g(codes.last()));
    }
}

/// Groups are set exactly where the fingerprint lists one that the engine has
/// a name for.
pub proof fn law_when_groups_are_set(fp: FingerprintModel, offered: Option<Seq<Seq<u8>>>)
    requires
        applied(fp, offered).refusal is None,
    ensures
        crate::plan::last_argument(applied(fp, offered).steps, Function::SetGroups) is Some
            <==> exists|i: int|
            0 <= i < fp.supported_groups.len() && group_name(
                #[trigger] fp.supported_groups[i],
            ) is Some,
{
    let codes = fp.supported_groups;
    let f = |c: u16| kept_group(c, true);
    let names = group_names(codes, true);
    let argument = if names.len() > 0 {
        Some(ArgumentModel::Text(crate::text::joined(names, ":"@)))
    } else {
        None
    };
    let step = groups_plan(fp).steps[0];
    assert(names.len() > 0 ==> groups_plan(fp).steps.contains(step));
    lemma_field(fp, offered, Function::SetGroups, argument, step);
    if names.len() > 0 {
        assert(names.contains(names[0]));
        codes.lemma_filter_map_contains(f, names[0]);
        let c = choose|c: u16| #[trigger] codes.contains(c) && f(c) == Some(names[0]);
        let i = choose|i: int| 0 <= i < codes.len() && codes[i] == c;
        assert(group_name(codes[i]) is Some);
    }
    if exists|i: int| 0 <= i < codes.len() && group_name(#[trigger] codes[i]) is Some {
        let i = choose|i: int| 0 <= i < codes.len() && group_name(#[trigger] codes[i]) is Some;
        lemma_some_name(codes, f, i);
    }
}

proof fn lemma_some_name(codes: Seq<u16>, f: spec_fn(u16) -> Option<Seq<char>>, i: int)
    requires
        0 <= i < codes.len(),
        f(codes[i]) is Some,
    ensures
        codes.filter_map(f).len() > 0,
    decreases codes.len(),
{
    reveal(Seq::filter_map);
    if i < codes.len() - 1 {
        assert(codes.drop_last()[i] == codes[i]);
        lemma_some_name(codes.drop_last(), f, i);
    }
}

/// The engine has a name for exactly these cipher suites, all of TLS 1.2, and
/// for exactly these groups; the groups over prime fields are named by the
/// size of the field.
pub proof fn law_what_has_a_name(code: u16)
    ensures
        cipher_name(code) is Some <==> seq![
            0xC02Bu16,
            0xC02F,
            0xC02C,
            0xC030,
            0xCCA9,
            0xCCA8,
            0xC009,
            0xC013,
            0xC00A,
            0xC014,
            0x009C,
            0x009D,
            0x002F,
            0x0035,
        ].contains(code),
        group_name(code) is Some <==> seq![
            0x0017u16,
            0x0018,
            0x0019,
            0x001D,
            0x001E,
            0x11EC,
            0x6399,
        ].contains(code),
        code == 0x0017 ==> group_name(code) == Some("P-"@ + crate::text::decimal(256)),
        code == 0x0018 ==> group_name(code) == Some("P-"@ + crate::text::decimal(384)),
        code == 0x0019 ==> group_name(code) == Some("P-"@ + crate::text::decimal(521)),
        code == 0x001D ==> group_name(code) == Some("X"@ + crate::text::decimal(25519)),
        code == 0x001E ==> group_name(code) == Some("X"@ + crate::text::decimal(448)),
{
    let suites = seq![
        0xC02Bu16,
        0xC02F,
        0xC02C,
        0xC030,
        0xCCA9,
        0xCCA8,
        0xC009,
        0xC013,
        0xC00A,
        0xC014,
        0x009C,
        0x009D,
        0x002F,
        0x0035,
    ];
    let groups = seq![0x0017u16, 0x0018, 0x0019, 0x001D, 0x001E, 0x11EC, 0x6399];
    if cipher_name(code) is Some {
        assert(suites[0] == code || suites[1] == code || suites[2] == code || suites[3] == code
            || suites[4] == code || suites[5] == code || suites[6] == code || suites[7] == code
            || suites[8] == code || suites[9] == code || suites[10] == code || suites[11] == code
            || suites[12] == code || suites[13] == code);
    }
    if group_name(code) is Some {
        assert(groups[0] == code || groups[1] == code || groups[2] == code || groups[3] == code
            || groups[4] == code || groups[5] == code || groups[6] == code);
    }
    reveal_with_fuel(crate::text::decimal, 5);
    reveal_strlit("P-");
    reveal_strlit("X");
    reveal_strlit("P-256");
    reveal_strlit("P-384");
    reveal_strlit("P-521");
    reveal_strlit("X25519");
    reveal_strlit("X448");
    assert("P-256"@ =~= "P-"@ + crate::text::decimal(256));
    assert("P-384"@ =~= "P-"@ + crate::text::decimal(384));
    assert("P-521"@ =~= "P-"@ + crate::text::decimal(521));
    assert("X25519"@ =~= "X"@ + crate::text::decimal(25519));
    assert("X448"@ =~= "X"@ + crate::text::decimal(448));
}

/// ALPS is announced for exactly those of the fingerprint's ALPS protocols
/// that are offered, in its order: all of them where the caller set no list,
/// else those that stand in that list. The codepoint is the one that the
/// fingerprint names.
#[verifier::rlimit(40)]
pub proof fn law_alps_follows_the_offer(fp: FingerprintModel, offered: Option<Seq<Seq<u8>>>)
    requires
        applied(fp, offered).refusal is None,
    ensures
        ({
            let bytes = fp.alps.map_values(|n: Seq<char>| vstd::utf8::encode_utf8(n));
            let kept = match offered {
                None => bytes,
                Some(list) => bytes.filter(|b: Seq<u8>| list.contains(b)),
            };
            &&& crate::plan::arguments_of(applied(fp, offered).steps, Function::AddAlps)
                == kept.map_values(|b: Seq<u8>| ArgumentModel::Bytes(b))
            &&& crate::plan::last_argument(
                applied(fp, offered).steps,
                Function::SetAlpsCodepoint,
            ) == (if fp.alps.len() > 0 {
                Some(ArgumentModel::Flag(fp.alps_use_new_codepoint))
            } else {
                None
            })
        }),
{
    let bytes = fp.alps.map_values(|n: Seq<char>| vstd::utf8::encode_utf8(n));
    assert(bytes =~= crate::alpn::name_bytes(fp.alps));
    lemma_kept(bytes, offered);
    lemma_alps_arguments(fp, offered);
    lemma_all_alps_arguments(fp, offered);
    lemma_alps_codepoint(fp, offered);
    let kept = match offered {
        None => bytes,
        Some(list) => bytes.filter(|b: Seq<u8>| list.contains(b)),
    };
    assert(alps_arguments(fp, offered) =~= kept.map_values(
        |b: Seq<u8>| ArgumentModel::Bytes(b),
    ));
}

/// What is given to the calls that announce ALPS protocols.
spec fn alps_arguments(fp: FingerprintModel, offered: Option<Seq<Seq<u8>>>) -> Seq<ArgumentModel> {
    alps_steps(crate::alpn::name_bytes(fp.alps), offered).map_values(
        |x: StepModel| x.call.argument,
    )
}

proof fn lemma_alps_codepoint(fp: FingerprintModel, offered: Option<Seq<Seq<u8>>>)
    requires
        applied(fp, offered).refusal is None,
    ensures
        crate::plan::last_argument(applied(fp, offered).steps, Function::SetAlpsCodepoint) == (
        if fp.alps.len() > 0 {
            Some(ArgumentModel::Flag(fp.alps_use_new_codepoint))
        } else {
            None
        }),
{
    let codepoint = if fp.alps.len() > 0 {
        Some(ArgumentModel::Flag(fp.alps_use_new_codepoint))
    } else {
        None
    };
    let step = alps_plan(fp, offered).steps[0];
    assert(fp.alps.len() > 0 ==> alps_plan(fp, offered).steps.contains(step));
    lemma_field(fp, offered, Function::SetAlpsCodepoint, codepoint, step);
}

#[verifier::rlimit(40)]
proof fn lemma_alps_arguments(fp: FingerprintModel, offered: Option<Seq<Seq<u8>>>)
    ensures
        crate::plan::arguments_of(alps_plan(fp, offered).steps, Function::AddAlps)
            == alps_arguments(fp, offered),
{
    let f = Function::AddAlps;
    let q = |x: StepModel| x.call.function != f;
    let protocols = crate::alpn::name_bytes(fp.alps);
    let alps = alps_plan(fp, offered);
    let announced = alps_steps(protocols, offered);
    if fp.alps.len() > 0 {
        let head = crate::plan::plan_of(seq![alps.steps[0]]);
        let tail = crate::plan::plan_of(announced);
        assert(alps.steps =~= head.followed_by(tail).steps);
        assert(crate::plan::every(head.steps, q));
        crate::plan::lemma_no_arguments(head.steps, f);
        crate::plan::lemma_arguments_followed(head, tail, f);
        let r = |x: StepModel| x.call.function == f;
        lemma_alps_offered(protocols, offered);
        assert forall|i: int| 0 <= i < announced.len() implies r(#[trigger] announced[i]) by {}
        crate::plan::lemma_all_arguments(announced, f);
        assert(crate::plan::arguments_of(alps.steps, f) =~= alps_arguments(fp, offered));
    } else {
        assert(crate::plan::every(alps.steps, q));
        crate::plan::lemma_no_arguments(alps.steps, f);
        reveal(Seq::filter);
        assert(protocols =~= seq![]);
        assert(announced =~= seq![]);
        assert(alps_arguments(fp, offered) =~= seq![]);
    }
}

#[verifier::rlimit(40)]
proof fn lemma_all_alps_arguments(fp: FingerprintModel, offered: Option<Seq<Seq<u8>>>)
    requires
        applied(fp, offered).refusal is None,
    ensures
        crate::plan::arguments_of(applied(fp, offered).steps, Function::AddAlps)
            == crate::plan::arguments_of(alps_plan(fp, offered).steps, Function::AddAlps),
{
    let f = Function::AddAlps;
    let q = |x: StepModel| x.call.function != f;
    lemma_every_before_alps(fp, offered, q);
    let a8 = before_alps(fp, offered);
    let alps = alps_plan(fp, offered);
    let a9 = a8.followed_by(alps);
    let a10 = a9.followed_by(ech_plan(fp));
    crate::plan::lemma_no_arguments(a8.steps, f);
    assert(crate::plan::every(ech_plan(fp).steps, q));
    assert(crate::plan::every(trust_anchor_plan(fp).steps, q));
    crate::plan::lemma_no_arguments(ech_plan(fp).steps, f);
    crate::plan::lemma_no_arguments(trust_anchor_plan(fp).steps, f);
    crate::plan::lemma_arguments_followed(a8, alps, f);
    crate::plan::lemma_arguments_followed(a9, ech_plan(fp), f);
    crate::plan::lemma_arguments_followed(a10, trust_anchor_plan(fp), f);
    assert(crate::plan::arguments_of(applied(fp, offered).steps, f)
        =~= crate::plan::arguments_of(alps.steps, f));
}

proof fn lemma_kept(protocols: Seq<Seq<u8>>, offered: Option<Seq<Seq<u8>>>)
    ensures
        protocols.filter(|b: Seq<u8>| still_offered(b, offered)) == (match offered {
            None => protocols,
            Some(list) => protocols.filter(|b: Seq<u8>| list.contains(b)),
        }),
    decreases protocols.len(),
{
    reveal(Seq::filter);
    if protocols.len() > 0 {
        lemma_kept(protocols.drop_last(), offered);
        assert(protocols.drop_last().push(protocols.last()) =~= protocols);
    } else {
        assert(protocols =~= seq![]);
    }
}

/// Certificate compression is registered once for each time the fingerprint
/// lists brotli, and for nothing else.
#[verifier::rlimit(40)]
pub proof fn law_compression_is_offered(fp: FingerprintModel, offered: Option<Seq<Seq<u8>>>)
    requires
        applied(fp, offered).refusal is None,
    ensures
        crate::plan::last_argument(applied(fp, offered).steps, Function::AddCompression) == (
        if fp.compress_certificate.contains(CertCompressAlg::Brotli) {
            Some(ArgumentModel::Number(2))
        } else {
            None
        }),
{
    let algs = fp.compress_certificate;
    let keep = |a: CertCompressAlg| a == CertCompressAlg::Brotli;
    let f = Function::AddCompression;
    let steps = applied(fp, offered).steps;
    if algs.contains(CertCompressAlg::Brotli) {
        let k = choose|k: int| 0 <= k < algs.len() && algs[k] == CertCompressAlg::Brotli;
        algs.lemma_filter_contains(keep, k);
        let kept = algs.filter(keep);
        let j = choose|j: int| 0 <= j < kept.len() && kept[j] == algs[k];
        let step = compression_plan(fp).steps[1 + j];
        assert(step == compression_step(2));
        assert(compression_plan(fp).steps.contains(step));
        law_everything_asked_for_is_done(fp, offered, step);
        let at = choose|i: int| 0 <= i < steps.len() && steps[i] == step;
        let q = crate::plan::gives(f, Some(ArgumentModel::Number(2)));
        assert forall|i: int| 0 <= i < steps.len() implies q(#[trigger] steps[i]) by {
            law_only_brotli_is_registered(fp, offered, i);
        }
        crate::plan::lemma_given(steps, f, Some(ArgumentModel::Number(2)), at);
    } else {
        let q = |x: StepModel| x.call.function != f;
        assert forall|i: int| 0 <= i < steps.len() implies q(#[trigger] steps[i]) by {
            if steps[i].call.function == f {
                assert(steps.contains(steps[i]));
                law_everything_asked_for_is_done(fp, offered, steps[i]);
                lemma_no_compression(fp, steps[i]);
                lemma_alps_register_nothing(fp, offered, steps[i]);
            }
        }
        crate::plan::lemma_no_argument(steps, f);
    }
}

proof fn lemma_no_compression(fp: FingerprintModel, step: StepModel)
    requires
        !fp.compress_certificate.contains(CertCompressAlg::Brotli),
        step.call.function == Function::AddCompression,
    ensures
        !compression_plan(fp).steps.contains(step),
{
    let algs = fp.compress_certificate;
    let keep = |a: CertCompressAlg| a == CertCompressAlg::Brotli;
    assert forall|i: int| 0 <= i < algs.len() implies !keep(#[trigger] algs[i]) by {}
    algs.lemma_all_neg_filter_empty(keep);
    assert(compression_steps(algs) =~= seq![]);
}

proof fn lemma_alps_register_nothing(
    fp: FingerprintModel,
    offered: Option<Seq<Seq<u8>>>,
    step: StepModel,
)
    requires
        step.call.function == Function::AddCompression,
    ensures
        !alps_plan(fp, offered).steps.contains(step),
{
    let protocols = crate::alpn::name_bytes(fp.alps);
    lemma_alps_offered(protocols, offered);
    let all = alps_plan(fp, offered).steps;
    assert forall|k: int| 0 <= k < all.len() implies #[trigger] all[k] != step by {
        if k > 0 {
            assert(all[k] == alps_steps(protocols, offered)[k - 1]);
        }
    }
}

/// The engine's name for a function whose failure ends the application of a
/// fingerprint.
pub open spec fn reported_name(function: Function) -> Option<Seq<char>> {
    match function {
        Function::SetCiphers => Some("SSL_set_cipher_list"@),
        Function::SetVerifyAlgorithms => Some("SSL_set_verify_algorithm_prefs"@),
        Function::SetAlpn => Some("SSL_set_alpn_protos"@),
        Function::SetKeyShares => Some("SSL_set1_client_key_shares"@),
        Function::AddAlps => Some("SSL_add_application_settings"@),
        Function::SetEchConfig => Some("SSL_set1_ech_config_list"@),
        Function::SetTrustAnchors => Some("SSL_set1_requested_trust_anchors"@),
        _ => None,
    }
}

/// What holds of the failure of a step: where the engine can refuse what the
/// fingerprint asks for, its refusal is reported under the name of the call
/// and never passed over; a connection without a context is refused.
pub open spec fn fails_loudly(step: StepModel) -> bool {
    &&& reported_name(step.call.function) matches Some(name) ==> step.on_failure
        == FailureModel::Report(name)
    &&& step.call.function == Function::GetContext ==> step.on_failure == FailureModel::Refuse(
        "SSL_get_SSL_CTX returned null"@,
    )
}

/// A fingerprint is applied whole or the failure is told: no refusal of the
/// engine is passed over in silence.
#[verifier::rlimit(40)]
pub proof fn law_no_refusal_is_passed_over(
    fp: FingerprintModel,
    offered: Option<Seq<Seq<u8>>>,
    i: int,
)
    requires
        0 <= i < applied(fp, offered).steps.len(),
    ensures
        fails_loudly(applied(fp, offered).steps[i]),
{
    let p = |s: StepModel| fails_loudly(s);
    assert(crate::plan::every(alps_plan(fp, offered).steps, p)) by {
        let protocols = crate::alpn::name_bytes(fp.alps);
        lemma_alps_offered(protocols, offered);
        let steps = alps_plan(fp, offered).steps;
        assert forall|k: int| 0 <= k < steps.len() implies p(#[trigger] steps[k]) by {
            if k > 0 {
                assert(steps[k] == alps_steps(protocols, offered)[k - 1]);
            }
        }
    }
    lemma_every_before_alps(fp, offered, p);
    lemma_every_applied(fp, offered, p);
    assert(p(applied(fp, offered).steps[i]));
}

/// Each way to apply a fingerprint asks for what its model says, with the
/// caller's list where there is one.
pub proof fn law_ways_to_apply(
    fp: &Fingerprint,
    list: &[Vec<u8>],
    plain: Plan,
    own: Plan,
    with: Plan,
)
    requires
        call_ensures(Fingerprint::apply_to_ssl, (fp,), plain),
        call_ensures(apply, (fp, None), own),
        call_ensures(Fingerprint::apply_to_ssl_with_alpn_override, (fp, list), with),
    ensures
        plain@ == applied(fp@, None),
        own@ == plain@,
        with@ == applied(fp@, Some(list@.map_values(|b: Vec<u8>| b@))),
{
    assert(list@.map_values(|b: Vec<u8>| b@) =~= crate::plan::byte_strings(list@));
}

/// A fingerprint is refused exactly where its trust-anchor IDs form no list, or
/// where the ALPN list that is to be advertised cannot go on the wire.
pub proof fn law_when_a_fingerprint_is_refused(fp: FingerprintModel, offered: Option<Seq<Seq<u8>>>)
    ensures
        applied(fp, offered).refusal is Some <==> (!fp.is_valid() || !crate::lists::proper(
            match offered {
                Some(list) => list,
                None => crate::alpn::name_bytes(fp.alpn),
            },
        )),
{
    if fp.alpn.len() == 0 {
        assert(crate::lists::proper(crate::alpn::name_bytes(fp.alpn)));
    }
}

} // verus!
