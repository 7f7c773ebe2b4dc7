//! What loading a certificate chain does.

use crate::chain::{password_reply, wipe, zeros, ChainLoad, Stage};
use crate::context::Context;
use vstd::prelude::*;

verus! {

/// Loading starts with what it was given: the certificates, the password, and
/// the key, or the certificates in its place where there is none.
pub proof fn law_loading_starts(
    c: &Context,
    certificates: &[u8],
    key: Option<&[u8]>,
    password: Option<&[u8]>,
    load: ChainLoad,
    read: &[u8],
    source: &[u8],
    secret: Option<&[u8]>,
    stage: Stage,
)
    requires
        call_ensures(Context::load_cert_chain, (c, certificates, key, password), load),
        call_ensures(ChainLoad::certificates, (&load,), read),
        call_ensures(ChainLoad::key_source, (&load,), source),
        call_ensures(ChainLoad::password, (&load,), secret),
        call_ensures(ChainLoad::stage, (&load,), stage),
    ensures
        read@ == certificates@,
        key matches Some(k) ==> source@ == k@,
        key is None ==> source@ == certificates@,
        secret is Some <==> password is Some,
        password matches Some(p) ==> secret->Some_0@ == p@,
        stage == Stage::ClearErrors,
{
}

/// The stages of a loading whose calls all succeed, up to the first search for
/// an intermediate certificate and from the end of that search on.
pub open spec fn leaf_stages() -> Seq<Stage> {
    seq![
        Stage::ClearErrors,
        Stage::OpenCertificates,
        Stage::ReadLeaf,
        Stage::UseLeaf,
        Stage::ClearChain,
        Stage::ReadNext,
        Stage::AddNext,
        Stage::ReadNext,
    ]
}

/// The stages from the end of the intermediate certificates on.
pub open spec fn key_stages() -> Seq<Stage> {
    seq![
        Stage::ClearEnd,
        Stage::OpenKey,
        Stage::ReadKey,
        Stage::UseKey,
        Stage::CheckKey,
        Stage::Loaded,
        Stage::Loaded,
    ]
}

/// The leaf is read and used before the chain is cleared, intermediate
/// certificates are read and added in turn, and then the key is read, used and
/// checked. The search for another intermediate certificate ends the list where
/// it fails; any other call that can fail and does ends the loading.
pub proof fn law_order_of_loading(load: &mut ChainLoad, ok: bool, done: (), i: int)
    requires
        call_ensures(ChainLoad::answer, (load, ok), done),
    ensures
        ok && 0 <= i < 7 && old(load)@.stage == leaf_stages()[i] ==> final(load)@.stage
            == leaf_stages()[i + 1],
        ok && 0 <= i < 6 && old(load)@.stage == key_stages()[i] ==> final(load)@.stage
            == key_stages()[i + 1],
        !ok && old(load)@.stage == Stage::ReadNext ==> final(load)@.stage == Stage::ClearEnd,
        !ok && (old(load)@.stage == Stage::OpenCertificates || old(load)@.stage == Stage::ReadLeaf
            || old(load)@.stage == Stage::UseLeaf || old(load)@.stage == Stage::AddNext || old(load)@.stage == Stage::OpenKey || old(load)@.stage == Stage::ReadKey || old(load)@.stage
            == Stage::UseKey || old(load)@.stage == Stage::CheckKey) ==> final(load)@.stage
            == Stage::Failed,
        old(load)@.stage == Stage::Failed ==> final(load)@.stage == Stage::Failed,
{
}

/// Where a loading fails, it is told which call of the engine failed.
pub proof fn law_failures_are_named(
    load: &mut ChainLoad,
    done: (),
    after: &ChainLoad,
    label: &'static str,
)
    requires
        call_ensures(ChainLoad::answer, (load, false), done),
        after@ == final(load)@,
        call_ensures(ChainLoad::label, (after,), label),
    ensures
        old(load)@.stage == Stage::OpenCertificates ==> label@ == "BIO_new_mem_buf"@,
        old(load)@.stage == Stage::ReadLeaf ==> label@ == "PEM_read_bio_X509 (leaf)"@,
        old(load)@.stage == Stage::UseLeaf ==> label@ == "SSL_CTX_use_certificate"@,
        old(load)@.stage == Stage::AddNext ==> label@ == "SSL_CTX_add_extra_chain_cert"@,
        old(load)@.stage == Stage::OpenKey ==> label@ == "BIO_new_mem_buf"@,
        old(load)@.stage == Stage::ReadKey ==> label@ == "PEM_read_bio_PrivateKey"@,
        old(load)@.stage == Stage::UseKey ==> label@ == "SSL_CTX_use_PrivateKey"@,
        old(load)@.stage == Stage::CheckKey ==> label@ == "SSL_CTX_check_private_key"@,
        old(load)@.stage == Stage::Failed ==> label@ == old(load)@.label,
{
}

/// Until the key is read nothing of what was given changes; once it is read, or
/// a call has failed, every byte of the password and of the key is zero.
pub proof fn law_secrets_are_wiped(
    load: &mut ChainLoad,
    ok: bool,
    done: (),
    after: &ChainLoad,
    source: &[u8],
    secret: Option<&[u8]>,
)
    requires
        call_ensures(ChainLoad::answer, (load, ok), done),
        after@ == final(load)@,
        call_ensures(ChainLoad::key_source, (after,), source),
        call_ensures(ChainLoad::password, (after,), secret),
    ensures
        ({
            let s = final(load)@.stage;
            let over = s == Stage::UseKey || s == Stage::CheckKey || s == Stage::Loaded || s
                == Stage::Failed;
            &&& over ==> forall|i: int| 0 <= i < source@.len() ==> #[trigger] source@[i] == 0
            &&& over ==> (secret matches Some(p) ==> forall|i: int|
                0 <= i < p@.len() ==> #[trigger] p@[i] == 0)
            &&& !over ==> final(load)@.key == old(load)@.key && final(load)@.password == old(load)@.password && final(load)@.certificates == old(load)@.certificates
            &&& source@.len() == old(load)@.key_source().len()
            &&& old(load)@.key is Some ==> final(load)@.certificates == old(load)@.certificates
        }),
{
    let s = final(load)@.stage;
    let over = s == Stage::UseKey || s == Stage::CheckKey || s == Stage::Loaded || s
        == Stage::Failed;
    if over {
        assert(source@ == zeros(old(load)@.key_source()));
    }
}

/// Wiping leaves as many bytes as there were, all of them zero.
pub proof fn law_wiping(buf: &mut Vec<u8>, done: ())
    requires
        call_ensures(wipe, (buf,), done),
    ensures
        final(buf)@.len() == old(buf)@.len(),
        forall|i: int| 0 <= i < final(buf)@.len() ==> #[trigger] final(buf)@[i] == 0,
{
}

/// The engine's password callback gets the front of the password: all of it
/// where it fits, and never more than the buffer holds.
pub proof fn law_password_replies(password: &[u8], size: i32, r: Vec<u8>)
    requires
        call_ensures(password_reply, (password, size), r),
    ensures
        r@.is_prefix_of(password@),
        r@.len() == (if size <= 0 {
            0
        } else if password@.len() <= size {
            password@.len() as int
        } else {
            size as int
        }),
{
}

} // verus!
