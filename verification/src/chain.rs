//! Loading a certificate chain with its private key: which call comes next,
//! and what the result of each means.

use crate::context::Context;
use vstd::prelude::*;

verus! {

/// What loading a chain is about to do.
#[derive(Debug, Clone, Copy, PartialEq, Eq, Structural)]
pub enum Stage {
    /// `ERR_clear_error`.
    ClearErrors,
    /// `BIO_new_mem_buf` over the certificates.
    OpenCertificates,
    /// `PEM_read_bio_X509` for the leaf.
    ReadLeaf,
    /// `SSL_CTX_use_certificate` with the leaf.
    UseLeaf,
    /// `SSL_CTX_clear_extra_chain_certs`: what was loaded before is gone.
    ClearChain,
    /// `PEM_read_bio_X509` for an intermediate certificate; there may be none
    /// left.
    ReadNext,
    /// `SSL_CTX_add_extra_chain_cert` with the intermediate certificate.
    AddNext,
    /// `ERR_clear_error`, because the last read failed.
    ClearEnd,
    /// `BIO_new_mem_buf` over the key.
    OpenKey,
    /// `PEM_read_bio_PrivateKey` with the password.
    ReadKey,
    /// `SSL_CTX_use_PrivateKey`.
    UseKey,
    /// `SSL_CTX_check_private_key`.
    CheckKey,
    /// Nothing more: chain and key are in place.
    Loaded,
    /// Nothing more: a call failed.
    Failed,
}

impl Stage {
    /// What comes after the call of this stage.
    pub open spec fn next(self, ok: bool) -> Stage {
        match self {
            Stage::ClearErrors => Stage::OpenCertificates,
            Stage::OpenCertificates if ok => Stage::ReadLeaf,
            Stage::ReadLeaf if ok => Stage::UseLeaf,
            Stage::UseLeaf if ok => Stage::ClearChain,
            Stage::ClearChain => Stage::ReadNext,
            Stage::ReadNext => if ok {
                Stage::AddNext
            } else {
                Stage::ClearEnd
            },
            Stage::AddNext if ok => Stage::ReadNext,
            Stage::ClearEnd => Stage::OpenKey,
            Stage::OpenKey if ok => Stage::ReadKey,
            Stage::ReadKey if ok => Stage::UseKey,
            Stage::UseKey if ok => Stage::CheckKey,
            Stage::CheckKey if ok => Stage::Loaded,
            Stage::Loaded => Stage::Loaded,
            _ => Stage::Failed,
        }
    }

    /// The label under which a failure of this stage is reported.
    pub open spec fn label(self) -> Seq<char> {
        match self {
            Stage::OpenCertificates => "BIO_new_mem_buf"@,
            Stage::ReadLeaf => "PEM_read_bio_X509 (leaf)"@,
            Stage::UseLeaf => "SSL_CTX_use_certificate"@,
            Stage::AddNext => "SSL_CTX_add_extra_chain_cert"@,
            Stage::OpenKey => "BIO_new_mem_buf"@,
            Stage::ReadKey => "PEM_read_bio_PrivateKey"@,
            Stage::UseKey => "SSL_CTX_use_PrivateKey"@,
            Stage::CheckKey => "SSL_CTX_check_private_key"@,
            _ => ""@,
        }
    }

    /// The stage after calls with the given results.
    pub open spec fn after(self, results: Seq<bool>) -> Stage
        decreases results.len(),
    {
        if results.len() == 0 {
            self
        } else {
            self.next(results[0]).after(results.drop_first())
        }
    }

    fn advance(self, ok: bool) -> (r: Stage)
        ensures
            r == self.next(ok),
    {
        match self {
            Stage::ClearErrors => Stage::OpenCertificates,
            Stage::ClearChain => Stage::ReadNext,
            Stage::ClearEnd => Stage::OpenKey,
            Stage::ReadNext => if ok {
                Stage::AddNext
            } else {
                Stage::ClearEnd
            },
            Stage::Loaded => Stage::Loaded,
            _ => if !ok {
                Stage::Failed
            } else {
                match self {
                    Stage::OpenCertificates => Stage::ReadLeaf,
                    Stage::ReadLeaf => Stage::UseLeaf,
                    Stage::UseLeaf => Stage::ClearChain,
                    Stage::AddNext => Stage::ReadNext,
                    Stage::OpenKey => Stage::ReadKey,
                    Stage::ReadKey => Stage::UseKey,
                    Stage::UseKey => Stage::CheckKey,
                    Stage::CheckKey => Stage::Loaded,
                    _ => Stage::Failed,
                }
            },
        }
    }

    fn failure_label(self) -> (r: &'static str)
        ensures
            r@ == self.label(),
    {
        match self {
            Stage::OpenCertificates => "BIO_new_mem_buf",
            Stage::ReadLeaf => "PEM_read_bio_X509 (leaf)",
            Stage::UseLeaf => "SSL_CTX_use_certificate",
            Stage::AddNext => "SSL_CTX_add_extra_chain_cert",
            Stage::OpenKey => "BIO_new_mem_buf",
            Stage::ReadKey => "PEM_read_bio_PrivateKey",
            Stage::UseKey => "SSL_CTX_use_PrivateKey",
            Stage::CheckKey => "SSL_CTX_check_private_key",
            _ => "",
        }
    }

    /// Whether the loading ends where the call of this stage fails.
    pub open spec fn must_succeed(self) -> bool {
        match self {
            Stage::ClearErrors => false,
            Stage::ClearChain => false,
            Stage::ReadNext => false,
            Stage::ClearEnd => false,
            Stage::Loaded => false,
            _ => true,
        }
    }

    /// Whether key and password are no longer needed.
    pub open spec fn is_past_key(self) -> bool {
        self == Stage::UseKey || self == Stage::CheckKey || self == Stage::Loaded || self
            == Stage::Failed
    }
}

/// As many zeros as there are bytes.
pub open spec fn zeros(b: Seq<u8>) -> Seq<u8> {
    Seq::new(b.len(), |i: int| 0u8)
}

/// As many zeros as there are bytes, if there are any bytes at all.
pub open spec fn opt_zeros(b: Option<Seq<u8>>) -> Option<Seq<u8>> {
    match b {
        Some(s) => Some(zeros(s)),
        None => None,
    }
}

/// Overwrites every byte with zero.
pub fn wipe(buf: &mut Vec<u8>)
    ensures
        final(buf)@ == zeros(old(buf)@),
{
    let mut i: usize = 0;
    while i < buf.len()
        invariant
            i <= buf@.len(),
            buf@.len() == old(buf)@.len(),
            forall|j: int| 0 <= j < i ==> buf@[j] == 0,
        decreases buf@.len() - i,
    {
        buf.set(i, 0);
        i = i + 1;
    }
    assert(buf@ =~= zeros(old(buf)@));
}

/// Overwrites every byte with zero, if there are any.
fn wipe_opt(buf: Option<Vec<u8>>) -> (r: Option<Vec<u8>>)
    ensures
        crate::fingerprint::spec::opt_bytes(r) == opt_zeros(
            crate::fingerprint::spec::opt_bytes(buf),
        ),
{
    match buf {
        Some(b) => {
            let mut b = b;
            wipe(&mut b);
            Some(b)
        },
        None => None,
    }
}

/// The loading of one chain.
#[derive(Debug)]
pub struct ChainLoad {
    stage: Stage,
    label: &'static str,
    certificates: Vec<u8>,
    key: Option<Vec<u8>>,
    password: Option<Vec<u8>>,
}

/// The mathematical content of a [`ChainLoad`].
pub struct ChainModel {
    pub stage: Stage,
    /// Where a call failed, the label for that.
    pub label: Seq<char>,
    pub certificates: Seq<u8>,
    pub key: Option<Seq<u8>>,
    pub password: Option<Seq<u8>>,
}

impl View for ChainLoad {
    type V = ChainModel;

    closed spec fn view(&self) -> ChainModel {
        ChainModel {
            stage: self.stage,
            label: self.label@,
            certificates: self.certificates@,
            key: crate::fingerprint::spec::opt_bytes(self.key),
            password: crate::fingerprint::spec::opt_bytes(self.password),
        }
    }
}

impl ChainModel {
    /// The bytes that the key is read from: its own, or the certificates'.
    pub open spec fn key_source(self) -> Seq<u8> {
        match self.key {
            Some(k) => k,
            None => self.certificates,
        }
    }

    /// The same with only zeros in place of the password and of the bytes that
    /// the key is read from.
    pub open spec fn wiped(self) -> ChainModel {
        ChainModel {
            certificates: if self.key is None {
                zeros(self.certificates)
            } else {
                self.certificates
            },
            key: opt_zeros(self.key),
            password: opt_zeros(self.password),
            ..self
        }
    }

    /// Whether only zeros are left of the password and of the bytes that the
    /// key is read from.
    pub open spec fn keeps_no_secret(self) -> bool {
        self == self.wiped()
    }

    /// The loading after the call of its stage, and whether that succeeded.
    pub open spec fn after(self, ok: bool) -> ChainModel {
        let stage = self.stage.next(ok);
        let next = ChainModel {
            stage,
            label: if stage == Stage::Failed && self.stage != Stage::Failed {
                self.stage.label()
            } else {
                self.label
            },
            ..self
        };
        if stage.is_past_key() {
            next.wiped()
        } else {
            next
        }
    }
}

/// The content of an optional byte slice.
pub open spec fn opt_slice_bytes(b: Option<&[u8]>) -> Option<Seq<u8>> {
    match b {
        Some(s) => Some(s@),
        None => None,
    }
}

fn own_bytes(b: Option<&[u8]>) -> (r: Option<Vec<u8>>)
    ensures
        crate::fingerprint::spec::opt_bytes(r) == opt_slice_bytes(b),
{
    match b {
        Some(s) => Some(vstd::slice::slice_to_vec(s)),
        None => None,
    }
}

impl Context {
    /// Starts loading a certificate chain and its key. Where there is no
    /// separate key, it is read from the certificates' own bytes.
    pub fn load_cert_chain(
        &self,
        cert_pem: &[u8],
        key_pem: Option<&[u8]>,
        password: Option<&[u8]>,
    ) -> (r: ChainLoad)
        ensures
            r@ == (ChainModel {
                stage: Stage::ClearErrors,
                label: ""@,
                certificates: cert_pem@,
                key: opt_slice_bytes(key_pem),
                password: opt_slice_bytes(password),
            }),
    {
        ChainLoad {
            stage: Stage::ClearErrors,
            label: "",
            certificates: vstd::slice::slice_to_vec(cert_pem),
            key: own_bytes(key_pem),
            password: own_bytes(password),
        }
    }
}

impl ChainLoad {
    #[verifier::type_invariant]
    closed spec fn keeps_no_secret(self) -> bool {
        self@.stage.is_past_key() ==> self@.keeps_no_secret()
    }

    /// What is to be done next.
    pub fn stage(&self) -> (r: Stage)
        ensures
            r == self@.stage,
            r.is_past_key() ==> self@.keeps_no_secret(),
    {
        proof {
            use_type_invariant(self);
        }
        self.stage
    }

    /// The label for the call that failed.
    pub fn label(&self) -> (r: &'static str)
        ensures
            r@ == self@.label,
    {
        self.label
    }

    /// The bytes that the certificates are read from.
    pub fn certificates(&self) -> (r: &[u8])
        ensures
            r@ == self@.certificates,
    {
        self.certificates.as_slice()
    }

    /// The bytes that the key is read from.
    pub fn key_source(&self) -> (r: &[u8])
        ensures
            r@ == self@.key_source(),
    {
        match &self.key {
            Some(k) => k.as_slice(),
            None => self.certificates.as_slice(),
        }
    }

    /// The password for the key.
    pub fn password(&self) -> (r: Option<&[u8]>)
        ensures
            opt_slice_bytes(r) == self@.password,
    {
        match &self.password {
            Some(p) => Some(p.as_slice()),
            None => None,
        }
    }

    /// Takes note of whether the call of the current stage succeeded. Once the
    /// key has been read, or a call has failed, only zeros are left of the
    /// password and of the bytes that the key is read from.
    pub fn answer(&mut self, ok: bool)
        ensures
            final(self)@ == old(self)@.after(ok),
    {
        proof {
            use_type_invariant(&*self);
        }
        let stage = self.stage;
        let next = stage.advance(ok);
        if next == Stage::UseKey || next == Stage::CheckKey || next == Stage::Loaded || next
            == Stage::Failed {
            self.wipe_secrets();
        }
        if next == Stage::Failed && stage != Stage::Failed {
            self.label = stage.failure_label();
        }
        self.stage = next;
    }

    fn wipe_secrets(&mut self)
        ensures
            final(self)@ == old(self)@.wiped(),
    {
        let mut taken = ChainLoad {
            stage: Stage::ClearErrors,
            label: "",
            certificates: Vec::new(),
            key: None,
            password: None,
        };
        core::mem::swap(&mut taken, self);
        let ChainLoad { stage, label, mut certificates, key, password } = taken;
        if key.is_none() {
            wipe(&mut certificates);
        }
        let wiped = ChainLoad {
            stage,
            label,
            certificates,
            key: wipe_opt(key),
            password: wipe_opt(password),
        };
        *self = wiped;
    }
}

/// What the engine's password callback is given: as much of the password as
/// fits in a buffer of the given size.
pub open spec fn password_prefix(password: Seq<u8>, size: i32) -> Seq<u8> {
    if size <= 0 {
        seq![]
    } else if password.len() <= size {
        password
    } else {
        password.take(size as int)
    }
}

/// What the engine's password callback is given.
pub fn password_reply(password: &[u8], size: i32) -> (r: Vec<u8>)
    ensures
        r@ == password_prefix(password@, size),
{
    if size <= 0 {
        return Vec::new();
    }
    if password.len() <= size as usize {
        return vstd::slice::slice_to_vec(password);
    }
    let r = vstd::slice::slice_to_vec(vstd::slice::slice_subrange(password, 0, size as usize));
    assert(r@ =~= password@.take(size as int));
    r
}

// ------------------------------------------------------------------- laws

proof fn lemma_after_add(s: Stage, a: Seq<bool>, b: Seq<bool>)
    ensures
        s.after(a + b) == s.after(a).after(b),
    decreases a.len(),
{
    if a.len() > 0 {
        lemma_after_add(s.next(a[0]), a.drop_first(), b);
        assert((a + b).drop_first() =~= a.drop_first() + b);
        assert((a + b)[0] == a[0]);
    } else {
        assert(a + b =~= b);
    }
}

/// The results of reading and adding `k` intermediate certificates.
pub open spec fn pairs(k: nat) -> Seq<bool> {
    Seq::new(2 * k, |i: int| true)
}

proof fn lemma_pairs(k: nat)
    ensures
        Stage::ReadNext.after(pairs(k)) == Stage::ReadNext,
    decreases k,
{
    if k > 0 {
        lemma_pairs((k - 1) as nat);
        assert(pairs(k).drop_first().drop_first() =~= pairs((k - 1) as nat));
        reveal_with_fuel(Stage::after, 3);
    }
}

/// A chain with any number of intermediate certificates is loaded: the leaf,
/// then each intermediate certificate in the order of the file until no more
/// can be read, then the key, which is checked last.
pub proof fn law_chain_loads(k: nat)
    ensures
        Stage::ClearErrors.after(
            seq![true, true, true, true, true] + pairs(k) + seq![false] + seq![
                true,
                true,
                true,
                true,
                true,
            ],
        ) == Stage::Loaded,
{
    let head = seq![true, true, true, true, true];
    let tail = seq![true, true, true, true, true];
    lemma_after_add(Stage::ClearErrors, head + pairs(k) + seq![false], tail);
    lemma_after_add(Stage::ClearErrors, head + pairs(k), seq![false]);
    lemma_after_add(Stage::ClearErrors, head, pairs(k));
    lemma_pairs(k);
    assert(Stage::ClearErrors.after(head) == Stage::ReadNext) by {
        reveal_with_fuel(Stage::after, 6);
        assert(head.drop_first() =~= seq![true, true, true, true]);
        assert(head.drop_first().drop_first() =~= seq![true, true, true]);
        assert(head.drop_first().drop_first().drop_first() =~= seq![true, true]);
        assert(head.drop_first().drop_first().drop_first().drop_first() =~= seq![true]);
    }
    assert(Stage::ReadNext.after(seq![false]) == Stage::ClearEnd) by {
        reveal_with_fuel(Stage::after, 2);
    }
    assert(Stage::ClearEnd.after(tail) == Stage::Loaded) by {
        reveal_with_fuel(Stage::after, 6);
        assert(tail.drop_first() =~= seq![true, true, true, true]);
        assert(tail.drop_first().drop_first() =~= seq![true, true, true]);
        assert(tail.drop_first().drop_first().drop_first() =~= seq![true, true]);
        assert(tail.drop_first().drop_first().drop_first().drop_first() =~= seq![true]);
    }
}

/// A failed call, other than the search for another intermediate certificate,
/// ends the loading for good.
pub proof fn law_chain_failure_is_final(s: Stage, later: Seq<bool>)
    requires
        s.must_succeed(),
    ensures
        s.next(false).after(later) == Stage::Failed,
{
    lemma_failed_stays(later);
}

proof fn lemma_failed_stays(later: Seq<bool>)
    ensures
        Stage::Failed.after(later) == Stage::Failed,
    decreases later.len(),
{
    if later.len() > 0 {
        lemma_failed_stays(later.drop_first());
    }
}

/// Intermediate certificates are only added after those of an earlier chain
/// were cleared, so the chain that was loaded last replaces the others.
pub proof fn law_chain_replaces_the_last(results: Seq<bool>)
    requires
        Stage::ClearErrors.after(results) == Stage::AddNext,
    ensures
        results.len() > 4,
        Stage::ClearErrors.after(results.take(4)) == Stage::ClearChain,
{
    reveal_with_fuel(Stage::after, 6);
    if results.len() > 4 {
        let head = results.take(4);
        let rest = results.skip(4);
        assert(results =~= head + rest);
        lemma_after_add(Stage::ClearErrors, head, rest);
        lemma_failed_stays(rest);
        assert(head[0] == results[0] && head[1] == results[1] && head[2] == results[2] && head[3]
            == results[3]);
    }
}

} // verus!
