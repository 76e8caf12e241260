//! Trusted boundary around the homomorphic-encryption engine.
//!
//! Every ciphertext of the library carries, as ghost state, the value it
//! decrypts to under its context's client key and the identity of that
//! context.  The `external_body` functions below are the only places where
//! the engine is called and the only places where ciphertexts are
//! constructed; each states, over that ghost state, exactly what the
//! engine's documentation promises of the call, and nothing more.
//!
//! The engine looks its server key up in thread-local state.  The library
//! exposes keys instead as an explicit [`FheContext`] handle that every
//! operation takes: a context owns its server key, and each operation
//! installs that key on the current thread before calling the engine, so
//! the contracts hold whatever other contexts exist and on any thread.

use vstd::prelude::*;
use vstd::arithmetic::power2::*;
use tfhe::prelude::{CastInto, FheDecrypt, FheOrd, FheTryEncrypt};
use tfhe::{ClientKey, Config, ConfigBuilder, FheBool, FheUint12, FheUint16, FheUint32, FheUint6, FheUint8, ServerKey};

verus! {

#[verifier::external_type_specification]
#[verifier::external_body]
pub struct ExConfig(Config);

#[verifier::external_type_specification]
#[verifier::external_body]
pub struct ExClientKey(ClientKey);

#[verifier::external_type_specification]
#[verifier::external_body]
pub struct ExServerKey(ServerKey);

#[verifier::external_type_specification]
#[verifier::external_body]
pub struct ExFheBool(FheBool);

/// Opaque payload holding one 6-bit ciphertext of the engine.
#[verifier::external_body]
struct Ct6 {
    inner: FheUint6,
}

/// Opaque payload holding one 8-bit ciphertext of the engine.
#[verifier::external_body]
struct Ct8 {
    inner: FheUint8,
}

/// Opaque payload holding one 12-bit ciphertext of the engine.
#[verifier::external_body]
struct Ct12 {
    inner: FheUint12,
}

/// Opaque payload holding one 16-bit ciphertext of the engine.
#[verifier::external_body]
struct Ct16 {
    inner: FheUint16,
}

/// Opaque payload holding one 32-bit ciphertext of the engine.
#[verifier::external_body]
struct Ct32 {
    inner: FheUint32,
}

/// Relies on tfhe's ConfigBuilder: the default configuration, which the
/// engine documents as providing at least 128-bit security, classical and
/// post-quantum.
#[verifier::external_body]
pub fn get_secure_config() -> Config {
    ConfigBuilder::default().build()
}

/// Relies on tfhe::generate_keys: a fresh client/server key pair for the
/// given configuration.
#[verifier::external_body]
fn generate_key_pair(cfg: Config) -> (ClientKey, ServerKey) {
    tfhe::generate_keys(cfg)
}

/// Relies on ClientKey::generate: a client key alone, which suffices to
/// encrypt and decrypt but not to operate on ciphertexts.
#[verifier::external_body]
fn generate_client_key(cfg: Config) -> ClientKey {
    ClientKey::generate(cfg)
}

/// One client key, and the matching server key when homomorphic
/// operations are wanted.  The server key is never shared through ambient
/// state by the library: each operation installs this context's own key
/// before running.
pub struct FheContext {
    ck: ClientKey,
    sk: Option<ServerKey>,
    id: Ghost<int>,
}

impl FheContext {
    /// Identity of this context; ciphertexts remember the identity of the
    /// context they were produced under, and operations demand that it
    /// matches.
    pub closed spec fn id(&self) -> int {
        self.id@
    }

    /// Whether this context holds a server key, so that homomorphic
    /// operations may be issued under it.
    pub closed spec fn holds_server_key(&self) -> bool {
        self.sk is Some
    }

    pub fn has_server_key(&self) -> (r: bool)
        ensures
            r == self.holds_server_key(),
    {
        self.sk.is_some()
    }

    /// Generate a fresh key pair, so that both encryption and homomorphic
    /// operations are available.
    pub fn with_server_key() -> (r: FheContext)
        ensures
            r.holds_server_key(),
    {
        let cfg = get_secure_config();
        let (ck, sk) = generate_key_pair(cfg);
        let ghost gid: int = arbitrary();
        FheContext { ck, sk: Some(sk), id: Ghost(gid) }
    }

    /// Generate only a client key: encryption and decryption work, but no
    /// homomorphic operation may be issued.
    pub fn client_only() -> (r: FheContext)
        ensures
            !r.holds_server_key(),
    {
        let cfg = get_secure_config();
        let ck = generate_client_key(cfg);
        let ghost gid: int = arbitrary();
        FheContext { ck, sk: None, id: Ghost(gid) }
    }
}

/// An encrypted boolean: the result of a homomorphic comparison.  Decrypts
/// to exactly true or false.
pub struct EncBool {
    ct: FheBool,
    plain: Ghost<bool>,
    key: Ghost<int>,
}

impl EncBool {
    /// The truth value this ciphertext decrypts to.
    pub closed spec fn plain(&self) -> bool {
        self.plain@
    }

    /// Identity of the context this ciphertext belongs to.
    pub closed spec fn ctx_id(&self) -> int {
        self.key@
    }

    /// Relies on FheBool::decrypt: returns the encrypted truth value under
    /// the matching client key.
    #[verifier::external_body]
    pub fn decrypt(&self, ctx: &FheContext) -> (r: bool)
        requires
            self.ctx_id() == ctx.id(),
        ensures
            r == self.plain(),
    {
        self.ct.decrypt(&ctx.ck)
    }
}

/// An encrypted fixed-width unsigned integer.  Each implementing type is
/// one ciphertext width; a value of width W decrypts to a plain value in
/// [0, 2^W - 1].  Homomorphic operations demand a context that holds a
/// server key and run under that context's own key, never under whatever
/// key another context may have left behind.
pub trait EncVal: Sized {
    /// Plaintext bit-width of this ciphertext type.
    spec fn width() -> nat;

    /// The value this ciphertext decrypts to under its context's client
    /// key.
    spec fn plain(&self) -> nat;

    /// Identity of the context this ciphertext belongs to.
    spec fn ctx_id(&self) -> int;

    /// The width is one the library supports.
    proof fn lemma_width()
        ensures
            6 <= Self::width() <= 32,
    ;

    /// Largest clear value of this width, as a run-time value.
    fn max_value() -> (r: u32)
        ensures
            r as nat == pow2(Self::width()) - 1,
    ;

    /// Encrypt a clear value.  Values that would overflow the width must be
    /// clamped by the caller before encryption.
    fn encrypt(v: u32, ctx: &FheContext) -> (r: Self)
        requires
            (v as nat) < pow2(Self::width()),
        ensures
            r.plain() == v as nat,
            r.ctx_id() == ctx.id(),
    ;

    /// Decrypt under the matching client key.
    fn decrypt(&self, ctx: &FheContext) -> (r: u32)
        requires
            self.ctx_id() == ctx.id(),
        ensures
            r as nat == self.plain(),
    ;

    /// Homomorphic addition; the engine computes modulo 2^W.
    fn hom_add(&self, other: &Self, ctx: &FheContext) -> (r: Self)
        requires
            ctx.holds_server_key(),
            self.ctx_id() == ctx.id(),
            other.ctx_id() == ctx.id(),
        ensures
            r.plain() == (self.plain() + other.plain()) % pow2(Self::width()),
            r.ctx_id() == ctx.id(),
    ;

    /// Homomorphic subtraction, stated only where it cannot wrap.
    fn hom_sub(&self, other: &Self, ctx: &FheContext) -> (r: Self)
        requires
            ctx.holds_server_key(),
            self.ctx_id() == ctx.id(),
            other.ctx_id() == ctx.id(),
            other.plain() <= self.plain(),
        ensures
            r.plain() == self.plain() - other.plain(),
            r.ctx_id() == ctx.id(),
    ;

    /// Homomorphic multiplication, stated only where the product fits the
    /// width.
    fn hom_mul(&self, other: &Self, ctx: &FheContext) -> (r: Self)
        requires
            ctx.holds_server_key(),
            self.ctx_id() == ctx.id(),
            other.ctx_id() == ctx.id(),
            self.plain() * other.plain() < pow2(Self::width()),
        ensures
            r.plain() == self.plain() * other.plain(),
            r.ctx_id() == ctx.id(),
    ;

    /// Homomorphic strict comparison; the result is an encrypted boolean.
    fn hom_lt(&self, other: &Self, ctx: &FheContext) -> (r: EncBool)
        requires
            ctx.holds_server_key(),
            self.ctx_id() == ctx.id(),
            other.ctx_id() == ctx.id(),
        ensures
            r.plain() == (self.plain() < other.plain()),
            r.ctx_id() == ctx.id(),
    ;

    /// Homomorphic non-strict comparison; the result is an encrypted
    /// boolean.
    fn hom_le(&self, other: &Self, ctx: &FheContext) -> (r: EncBool)
        requires
            ctx.holds_server_key(),
            self.ctx_id() == ctx.id(),
            other.ctx_id() == ctx.id(),
        ensures
            r.plain() == (self.plain() <= other.plain()),
            r.ctx_id() == ctx.id(),
    ;

    /// Cast an encrypted boolean to this width: true becomes 1, false
    /// becomes 0.
    fn from_bool(b: &EncBool, ctx: &FheContext) -> (r: Self)
        requires
            ctx.holds_server_key(),
            b.ctx_id() == ctx.id(),
        ensures
            r.plain() == (if b.plain() { 1nat } else { 0nat }),
            r.ctx_id() == ctx.id(),
    ;
}

/// An encrypted 6-bit unsigned integer.
pub struct Enc6 {
    ct: Ct6,
    plain: Ghost<nat>,
    key: Ghost<int>,
}

impl Enc6 {
    /// Relies on FheUint6::try_encrypt under the context's client key; a
    /// value within the width encrypts without error.
    #[verifier::external_body]
    fn raw_encrypt(v: u32, ctx: &FheContext) -> (r: Enc6)
        requires
            (v as nat) < pow2(6),
        ensures
            r.plain() == v as nat,
            r.ctx_id() == ctx.id(),
    {
        Enc6 {
            ct: Ct6 { inner: FheUint6::try_encrypt(v, &ctx.ck).unwrap() },
            plain: Ghost(arbitrary()),
            key: Ghost(arbitrary()),
        }
    }

    /// Relies on FheUint6::decrypt under the context's client key.
    #[verifier::external_body]
    fn raw_decrypt(&self, ctx: &FheContext) -> (r: u32)
        requires
            self.ctx_id() == ctx.id(),
        ensures
            r as nat == self.plain(),
    {
        self.ct.inner.decrypt(&ctx.ck)
    }

    /// Relies on tfhe::set_server_key, then homomorphic addition of
    /// FheUint6, which wraps modulo 2^6.
    #[verifier::external_body]
    fn raw_add(&self, other: &Enc6, ctx: &FheContext) -> (r: Enc6)
        requires
            ctx.holds_server_key(),
            self.ctx_id() == ctx.id(),
            other.ctx_id() == ctx.id(),
        ensures
            r.plain() == (self.plain() + other.plain()) % pow2(6),
            r.ctx_id() == ctx.id(),
    {
        tfhe::set_server_key(ctx.sk.as_ref().unwrap().clone());
        Enc6 {
            ct: Ct6 { inner: &self.ct.inner + &other.ct.inner },
            plain: Ghost(arbitrary()),
            key: Ghost(arbitrary()),
        }
    }

    /// Relies on tfhe::set_server_key, then homomorphic subtraction of
    /// FheUint6, stated only where it cannot wrap.
    #[verifier::external_body]
    fn raw_sub(&self, other: &Enc6, ctx: &FheContext) -> (r: Enc6)
        requires
            ctx.holds_server_key(),
            self.ctx_id() == ctx.id(),
            other.ctx_id() == ctx.id(),
            other.plain() <= self.plain(),
        ensures
            r.plain() == self.plain() - other.plain(),
            r.ctx_id() == ctx.id(),
    {
        tfhe::set_server_key(ctx.sk.as_ref().unwrap().clone());
        Enc6 {
            ct: Ct6 { inner: &self.ct.inner - &other.ct.inner },
            plain: Ghost(arbitrary()),
            key: Ghost(arbitrary()),
        }
    }

    /// Relies on tfhe::set_server_key, then homomorphic multiplication
    /// of FheUint6, stated only where the product fits the width.
    #[verifier::external_body]
    fn raw_mul(&self, other: &Enc6, ctx: &FheContext) -> (r: Enc6)
        requires
            ctx.holds_server_key(),
            self.ctx_id() == ctx.id(),
            other.ctx_id() == ctx.id(),
            self.plain() * other.plain() < pow2(6),
        ensures
            r.plain() == self.plain() * other.plain(),
            r.ctx_id() == ctx.id(),
    {
        tfhe::set_server_key(ctx.sk.as_ref().unwrap().clone());
        Enc6 {
            ct: Ct6 { inner: &self.ct.inner * &other.ct.inner },
            plain: Ghost(arbitrary()),
            key: Ghost(arbitrary()),
        }
    }

    /// Relies on tfhe::set_server_key, then FheOrd::lt for FheUint6.
    #[verifier::external_body]
    fn raw_lt(&self, other: &Enc6, ctx: &FheContext) -> (r: EncBool)
        requires
            ctx.holds_server_key(),
            self.ctx_id() == ctx.id(),
            other.ctx_id() == ctx.id(),
        ensures
            r.plain() == (self.plain() < other.plain()),
            r.ctx_id() == ctx.id(),
    {
        tfhe::set_server_key(ctx.sk.as_ref().unwrap().clone());
        EncBool {
            ct: self.ct.inner.lt(&other.ct.inner),
            plain: Ghost(arbitrary()),
            key: Ghost(arbitrary()),
        }
    }

    /// Relies on tfhe::set_server_key, then FheOrd::le for FheUint6.
    #[verifier::external_body]
    fn raw_le(&self, other: &Enc6, ctx: &FheContext) -> (r: EncBool)
        requires
            ctx.holds_server_key(),
            self.ctx_id() == ctx.id(),
            other.ctx_id() == ctx.id(),
        ensures
            r.plain() == (self.plain() <= other.plain()),
            r.ctx_id() == ctx.id(),
    {
        tfhe::set_server_key(ctx.sk.as_ref().unwrap().clone());
        EncBool {
            ct: self.ct.inner.le(&other.ct.inner),
            plain: Ghost(arbitrary()),
            key: Ghost(arbitrary()),
        }
    }

    /// Relies on tfhe::set_server_key, then CastFrom<FheBool> for
    /// FheUint6: true casts to 1, false to 0.
    #[verifier::external_body]
    fn raw_from_bool(b: &EncBool, ctx: &FheContext) -> (r: Enc6)
        requires
            ctx.holds_server_key(),
            b.ctx_id() == ctx.id(),
        ensures
            r.plain() == (if b.plain() { 1nat } else { 0nat }),
            r.ctx_id() == ctx.id(),
    {
        tfhe::set_server_key(ctx.sk.as_ref().unwrap().clone());
        Enc6 {
            ct: Ct6 { inner: b.ct.clone().cast_into() },
            plain: Ghost(arbitrary()),
            key: Ghost(arbitrary()),
        }
    }
}

impl EncVal for Enc6 {
    open spec fn width() -> nat {
        6
    }

    closed spec fn plain(&self) -> nat {
        self.plain@
    }

    closed spec fn ctx_id(&self) -> int {
        self.key@
    }

    proof fn lemma_width() {
    }

    fn max_value() -> (r: u32) {
        proof {
            lemma2_to64();
        }
        63
    }

    fn encrypt(v: u32, ctx: &FheContext) -> (r: Self) {
        Enc6::raw_encrypt(v, ctx)
    }

    fn decrypt(&self, ctx: &FheContext) -> (r: u32) {
        self.raw_decrypt(ctx)
    }

    fn hom_add(&self, other: &Self, ctx: &FheContext) -> (r: Self) {
        self.raw_add(other, ctx)
    }

    fn hom_sub(&self, other: &Self, ctx: &FheContext) -> (r: Self) {
        self.raw_sub(other, ctx)
    }

    fn hom_mul(&self, other: &Self, ctx: &FheContext) -> (r: Self) {
        self.raw_mul(other, ctx)
    }

    fn hom_lt(&self, other: &Self, ctx: &FheContext) -> (r: EncBool) {
        self.raw_lt(other, ctx)
    }

    fn hom_le(&self, other: &Self, ctx: &FheContext) -> (r: EncBool) {
        self.raw_le(other, ctx)
    }

    fn from_bool(b: &EncBool, ctx: &FheContext) -> (r: Self) {
        Enc6::raw_from_bool(b, ctx)
    }
}

/// An encrypted 8-bit unsigned integer.
pub struct Enc8 {
    ct: Ct8,
    plain: Ghost<nat>,
    key: Ghost<int>,
}

impl Enc8 {
    /// Relies on FheUint8::try_encrypt under the context's client key; a
    /// value within the width encrypts without error.
    #[verifier::external_body]
    fn raw_encrypt(v: u32, ctx: &FheContext) -> (r: Enc8)
        requires
            (v as nat) < pow2(8),
        ensures
            r.plain() == v as nat,
            r.ctx_id() == ctx.id(),
    {
        Enc8 {
            ct: Ct8 { inner: FheUint8::try_encrypt(v, &ctx.ck).unwrap() },
            plain: Ghost(arbitrary()),
            key: Ghost(arbitrary()),
        }
    }

    /// Relies on FheUint8::decrypt under the context's client key.
    #[verifier::external_body]
    fn raw_decrypt(&self, ctx: &FheContext) -> (r: u32)
        requires
            self.ctx_id() == ctx.id(),
        ensures
            r as nat == self.plain(),
    {
        self.ct.inner.decrypt(&ctx.ck)
    }

    /// Relies on tfhe::set_server_key, then homomorphic addition of
    /// FheUint8, which wraps modulo 2^8.
    #[verifier::external_body]
    fn raw_add(&self, other: &Enc8, ctx: &FheContext) -> (r: Enc8)
        requires
            ctx.holds_server_key(),
            self.ctx_id() == ctx.id(),
            other.ctx_id() == ctx.id(),
        ensures
            r.plain() == (self.plain() + other.plain()) % pow2(8),
            r.ctx_id() == ctx.id(),
    {
        tfhe::set_server_key(ctx.sk.as_ref().unwrap().clone());
        Enc8 {
            ct: Ct8 { inner: &self.ct.inner + &other.ct.inner },
            plain: Ghost(arbitrary()),
            key: Ghost(arbitrary()),
        }
    }

    /// Relies on tfhe::set_server_key, then homomorphic subtraction of
    /// FheUint8, stated only where it cannot wrap.
    #[verifier::external_body]
    fn raw_sub(&self, other: &Enc8, ctx: &FheContext) -> (r: Enc8)
        requires
            ctx.holds_server_key(),
            self.ctx_id() == ctx.id(),
            other.ctx_id() == ctx.id(),
            other.plain() <= self.plain(),
        ensures
            r.plain() == self.plain() - other.plain(),
            r.ctx_id() == ctx.id(),
    {
        tfhe::set_server_key(ctx.sk.as_ref().unwrap().clone());
        Enc8 {
            ct: Ct8 { inner: &self.ct.inner - &other.ct.inner },
            plain: Ghost(arbitrary()),
            key: Ghost(arbitrary()),
        }
    }

    /// Relies on tfhe::set_server_key, then homomorphic multiplication
    /// of FheUint8, stated only where the product fits the width.
    #[verifier::external_body]
    fn raw_mul(&self, other: &Enc8, ctx: &FheContext) -> (r: Enc8)
        requires
            ctx.holds_server_key(),
            self.ctx_id() == ctx.id(),
            other.ctx_id() == ctx.id(),
            self.plain() * other.plain() < pow2(8),
        ensures
            r.plain() == self.plain() * other.plain(),
            r.ctx_id() == ctx.id(),
    {
        tfhe::set_server_key(ctx.sk.as_ref().unwrap().clone());
        Enc8 {
            ct: Ct8 { inner: &self.ct.inner * &other.ct.inner },
            plain: Ghost(arbitrary()),
            key: Ghost(arbitrary()),
        }
    }

    /// Relies on tfhe::set_server_key, then FheOrd::lt for FheUint8.
    #[verifier::external_body]
    fn raw_lt(&self, other: &Enc8, ctx: &FheContext) -> (r: EncBool)
        requires
            ctx.holds_server_key(),
            self.ctx_id() == ctx.id(),
            other.ctx_id() == ctx.id(),
        ensures
            r.plain() == (self.plain() < other.plain()),
            r.ctx_id() == ctx.id(),
    {
        tfhe::set_server_key(ctx.sk.as_ref().unwrap().clone());
        EncBool {
            ct: self.ct.inner.lt(&other.ct.inner),
            plain: Ghost(arbitrary()),
            key: Ghost(arbitrary()),
        }
    }

    /// Relies on tfhe::set_server_key, then FheOrd::le for FheUint8.
    #[verifier::external_body]
    fn raw_le(&self, other: &Enc8, ctx: &FheContext) -> (r: EncBool)
        requires
            ctx.holds_server_key(),
            self.ctx_id() == ctx.id(),
            other.ctx_id() == ctx.id(),
        ensures
            r.plain() == (self.plain() <= other.plain()),
            r.ctx_id() == ctx.id(),
    {
        tfhe::set_server_key(ctx.sk.as_ref().unwrap().clone());
        EncBool {
            ct: self.ct.inner.le(&other.ct.inner),
            plain: Ghost(arbitrary()),
            key: Ghost(arbitrary()),
        }
    }

    /// Relies on tfhe::set_server_key, then CastFrom<FheBool> for
    /// FheUint8: true casts to 1, false to 0.
    #[verifier::external_body]
    fn raw_from_bool(b: &EncBool, ctx: &FheContext) -> (r: Enc8)
        requires
            ctx.holds_server_key(),
            b.ctx_id() == ctx.id(),
        ensures
            r.plain() == (if b.plain() { 1nat } else { 0nat }),
            r.ctx_id() == ctx.id(),
    {
        tfhe::set_server_key(ctx.sk.as_ref().unwrap().clone());
        Enc8 {
            ct: Ct8 { inner: b.ct.clone().cast_into() },
            plain: Ghost(arbitrary()),
            key: Ghost(arbitrary()),
        }
    }
}

impl EncVal for Enc8 {
    open spec fn width() -> nat {
        8
    }

    closed spec fn plain(&self) -> nat {
        self.plain@
    }

    closed spec fn ctx_id(&self) -> int {
        self.key@
    }

    proof fn lemma_width() {
    }

    fn max_value() -> (r: u32) {
        proof {
            lemma2_to64();
        }
        255
    }

    fn encrypt(v: u32, ctx: &FheContext) -> (r: Self) {
        Enc8::raw_encrypt(v, ctx)
    }

    fn decrypt(&self, ctx: &FheContext) -> (r: u32) {
        self.raw_decrypt(ctx)
    }

    fn hom_add(&self, other: &Self, ctx: &FheContext) -> (r: Self) {
        self.raw_add(other, ctx)
    }

    fn hom_sub(&self, other: &Self, ctx: &FheContext) -> (r: Self) {
        self.raw_sub(other, ctx)
    }

    fn hom_mul(&self, other: &Self, ctx: &FheContext) -> (r: Self) {
        self.raw_mul(other, ctx)
    }

    fn hom_lt(&self, other: &Self, ctx: &FheContext) -> (r: EncBool) {
        self.raw_lt(other, ctx)
    }

    fn hom_le(&self, other: &Self, ctx: &FheContext) -> (r: EncBool) {
        self.raw_le(other, ctx)
    }

    fn from_bool(b: &EncBool, ctx: &FheContext) -> (r: Self) {
        Enc8::raw_from_bool(b, ctx)
    }
}

/// An encrypted 12-bit unsigned integer.
pub struct Enc12 {
    ct: Ct12,
    plain: Ghost<nat>,
    key: Ghost<int>,
}

impl Enc12 {
    /// Relies on FheUint12::try_encrypt under the context's client key; a
    /// value within the width encrypts without error.
    #[verifier::external_body]
    fn raw_encrypt(v: u32, ctx: &FheContext) -> (r: Enc12)
        requires
            (v as nat) < pow2(12),
        ensures
            r.plain() == v as nat,
            r.ctx_id() == ctx.id(),
    {
        Enc12 {
            ct: Ct12 { inner: FheUint12::try_encrypt(v, &ctx.ck).unwrap() },
            plain: Ghost(arbitrary()),
            key: Ghost(arbitrary()),
        }
    }

    /// Relies on FheUint12::decrypt under the context's client key.
    #[verifier::external_body]
    fn raw_decrypt(&self, ctx: &FheContext) -> (r: u32)
        requires
            self.ctx_id() == ctx.id(),
        ensures
            r as nat == self.plain(),
    {
        self.ct.inner.decrypt(&ctx.ck)
    }

    /// Relies on tfhe::set_server_key, then homomorphic addition of
    /// FheUint12, which wraps modulo 2^12.
    #[verifier::external_body]
    fn raw_add(&self, other: &Enc12, ctx: &FheContext) -> (r: Enc12)
        requires
            ctx.holds_server_key(),
            self.ctx_id() == ctx.id(),
            other.ctx_id() == ctx.id(),
        ensures
            r.plain() == (self.plain() + other.plain()) % pow2(12),
            r.ctx_id() == ctx.id(),
    {
        tfhe::set_server_key(ctx.sk.as_ref().unwrap().clone());
        Enc12 {
            ct: Ct12 { inner: &self.ct.inner + &other.ct.inner },
            plain: Ghost(arbitrary()),
            key: Ghost(arbitrary()),
        }
    }

    /// Relies on tfhe::set_server_key, then homomorphic subtraction of
    /// FheUint12, stated only where it cannot wrap.
    #[verifier::external_body]
    fn raw_sub(&self, other: &Enc12, ctx: &FheContext) -> (r: Enc12)
        requires
            ctx.holds_server_key(),
            self.ctx_id() == ctx.id(),
            other.ctx_id() == ctx.id(),
            other.plain() <= self.plain(),
        ensures
            r.plain() == self.plain() - other.plain(),
            r.ctx_id() == ctx.id(),
    {
        tfhe::set_server_key(ctx.sk.as_ref().unwrap().clone());
        Enc12 {
            ct: Ct12 { inner: &self.ct.inner - &other.ct.inner },
            plain: Ghost(arbitrary()),
            key: Ghost(arbitrary()),
        }
    }

    /// Relies on tfhe::set_server_key, then homomorphic multiplication
    /// of FheUint12, stated only where the product fits the width.
    #[verifier::external_body]
    fn raw_mul(&self, other: &Enc12, ctx: &FheContext) -> (r: Enc12)
        requires
            ctx.holds_server_key(),
            self.ctx_id() == ctx.id(),
            other.ctx_id() == ctx.id(),
            self.plain() * other.plain() < pow2(12),
        ensures
            r.plain() == self.plain() * other.plain(),
            r.ctx_id() == ctx.id(),
    {
        tfhe::set_server_key(ctx.sk.as_ref().unwrap().clone());
        Enc12 {
            ct: Ct12 { inner: &self.ct.inner * &other.ct.inner },
            plain: Ghost(arbitrary()),
            key: Ghost(arbitrary()),
        }
    }

    /// Relies on tfhe::set_server_key, then FheOrd::lt for FheUint12.
    #[verifier::external_body]
    fn raw_lt(&self, other: &Enc12, ctx: &FheContext) -> (r: EncBool)
        requires
            ctx.holds_server_key(),
            self.ctx_id() == ctx.id(),
            other.ctx_id() == ctx.id(),
        ensures
            r.plain() == (self.plain() < other.plain()),
            r.ctx_id() == ctx.id(),
    {
        tfhe::set_server_key(ctx.sk.as_ref().unwrap().clone());
        EncBool {
            ct: self.ct.inner.lt(&other.ct.inner),
            plain: Ghost(arbitrary()),
            key: Ghost(arbitrary()),
        }
    }

    /// Relies on tfhe::set_server_key, then FheOrd::le for FheUint12.
    #[verifier::external_body]
    fn raw_le(&self, other: &Enc12, ctx: &FheContext) -> (r: EncBool)
        requires
            ctx.holds_server_key(),
            self.ctx_id() == ctx.id(),
            other.ctx_id() == ctx.id(),
        ensures
            r.plain() == (self.plain() <= other.plain()),
            r.ctx_id() == ctx.id(),
    {
        tfhe::set_server_key(ctx.sk.as_ref().unwrap().clone());
        EncBool {
            ct: self.ct.inner.le(&other.ct.inner),
            plain: Ghost(arbitrary()),
            key: Ghost(arbitrary()),
        }
    }

    /// Relies on tfhe::set_server_key, then CastFrom<FheBool> for
    /// FheUint12: true casts to 1, false to 0.
    #[verifier::external_body]
    fn raw_from_bool(b: &EncBool, ctx: &FheContext) -> (r: Enc12)
        requires
            ctx.holds_server_key(),
            b.ctx_id() == ctx.id(),
        ensures
            r.plain() == (if b.plain() { 1nat } else { 0nat }),
            r.ctx_id() == ctx.id(),
    {
        tfhe::set_server_key(ctx.sk.as_ref().unwrap().clone());
        Enc12 {
            ct: Ct12 { inner: b.ct.clone().cast_into() },
            plain: Ghost(arbitrary()),
            key: Ghost(arbitrary()),
        }
    }
}

impl EncVal for Enc12 {
    open spec fn width() -> nat {
        12
    }

    closed spec fn plain(&self) -> nat {
        self.plain@
    }

    closed spec fn ctx_id(&self) -> int {
        self.key@
    }

    proof fn lemma_width() {
    }

    fn max_value() -> (r: u32) {
        proof {
            lemma2_to64();
        }
        4095
    }

    fn encrypt(v: u32, ctx: &FheContext) -> (r: Self) {
        Enc12::raw_encrypt(v, ctx)
    }

    fn decrypt(&self, ctx: &FheContext) -> (r: u32) {
        self.raw_decrypt(ctx)
    }

    fn hom_add(&self, other: &Self, ctx: &FheContext) -> (r: Self) {
        self.raw_add(other, ctx)
    }

    fn hom_sub(&self, other: &Self, ctx: &FheContext) -> (r: Self) {
        self.raw_sub(other, ctx)
    }

    fn hom_mul(&self, other: &Self, ctx: &FheContext) -> (r: Self) {
        self.raw_mul(other, ctx)
    }

    fn hom_lt(&self, other: &Self, ctx: &FheContext) -> (r: EncBool) {
        self.raw_lt(other, ctx)
    }

    fn hom_le(&self, other: &Self, ctx: &FheContext) -> (r: EncBool) {
        self.raw_le(other, ctx)
    }

    fn from_bool(b: &EncBool, ctx: &FheContext) -> (r: Self) {
        Enc12::raw_from_bool(b, ctx)
    }
}

/// An encrypted 16-bit unsigned integer.
pub struct Enc16 {
    ct: Ct16,
    plain: Ghost<nat>,
    key: Ghost<int>,
}

impl Enc16 {
    /// Relies on FheUint16::try_encrypt under the context's client key; a
    /// value within the width encrypts without error.
    #[verifier::external_body]
    fn raw_encrypt(v: u32, ctx: &FheContext) -> (r: Enc16)
        requires
            (v as nat) < pow2(16),
        ensures
            r.plain() == v as nat,
            r.ctx_id() == ctx.id(),
    {
        Enc16 {
            ct: Ct16 { inner: FheUint16::try_encrypt(v, &ctx.ck).unwrap() },
            plain: Ghost(arbitrary()),
            key: Ghost(arbitrary()),
        }
    }

    /// Relies on FheUint16::decrypt under the context's client key.
    #[verifier::external_body]
    fn raw_decrypt(&self, ctx: &FheContext) -> (r: u32)
        requires
            self.ctx_id() == ctx.id(),
        ensures
            r as nat == self.plain(),
    {
        self.ct.inner.decrypt(&ctx.ck)
    }

    /// Relies on tfhe::set_server_key, then homomorphic addition of
    /// FheUint16, which wraps modulo 2^16.
    #[verifier::external_body]
    fn raw_add(&self, other: &Enc16, ctx: &FheContext) -> (r: Enc16)
        requires
            ctx.holds_server_key(),
            self.ctx_id() == ctx.id(),
            other.ctx_id() == ctx.id(),
        ensures
            r.plain() == (self.plain() + other.plain()) % pow2(16),
            r.ctx_id() == ctx.id(),
    {
        tfhe::set_server_key(ctx.sk.as_ref().unwrap().clone());
        Enc16 {
            ct: Ct16 { inner: &self.ct.inner + &other.ct.inner },
            plain: Ghost(arbitrary()),
            key: Ghost(arbitrary()),
        }
    }

    /// Relies on tfhe::set_server_key, then homomorphic subtraction of
    /// FheUint16, stated only where it cannot wrap.
    #[verifier::external_body]
    fn raw_sub(&self, other: &Enc16, ctx: &FheContext) -> (r: Enc16)
        requires
            ctx.holds_server_key(),
            self.ctx_id() == ctx.id(),
            other.ctx_id() == ctx.id(),
            other.plain() <= self.plain(),
        ensures
            r.plain() == self.plain() - other.plain(),
            r.ctx_id() == ctx.id(),
    {
        tfhe::set_server_key(ctx.sk.as_ref().unwrap().clone());
        Enc16 {
            ct: Ct16 { inner: &self.ct.inner - &other.ct.inner },
            plain: Ghost(arbitrary()),
            key: Ghost(arbitrary()),
        }
    }

    /// Relies on tfhe::set_server_key, then homomorphic multiplication
    /// of FheUint16, stated only where the product fits the width.
    #[verifier::external_body]
    fn raw_mul(&self, other: &Enc16, ctx: &FheContext) -> (r: Enc16)
        requires
            ctx.holds_server_key(),
            self.ctx_id() == ctx.id(),
            other.ctx_id() == ctx.id(),
            self.plain() * other.plain() < pow2(16),
        ensures
            r.plain() == self.plain() * other.plain(),
            r.ctx_id() == ctx.id(),
    {
        tfhe::set_server_key(ctx.sk.as_ref().unwrap().clone());
        Enc16 {
            ct: Ct16 { inner: &self.ct.inner * &other.ct.inner },
            plain: Ghost(arbitrary()),
            key: Ghost(arbitrary()),
        }
    }

    /// Relies on tfhe::set_server_key, then FheOrd::lt for FheUint16.
    #[verifier::external_body]
    fn raw_lt(&self, other: &Enc16, ctx: &FheContext) -> (r: EncBool)
        requires
            ctx.holds_server_key(),
            self.ctx_id() == ctx.id(),
            other.ctx_id() == ctx.id(),
        ensures
            r.plain() == (self.plain() < other.plain()),
            r.ctx_id() == ctx.id(),
    {
        tfhe::set_server_key(ctx.sk.as_ref().unwrap().clone());
        EncBool {
            ct: self.ct.inner.lt(&other.ct.inner),
            plain: Ghost(arbitrary()),
            key: Ghost(arbitrary()),
        }
    }

    /// Relies on tfhe::set_server_key, then FheOrd::le for FheUint16.
    #[verifier::external_body]
    fn raw_le(&self, other: &Enc16, ctx: &FheContext) -> (r: EncBool)
        requires
            ctx.holds_server_key(),
            self.ctx_id() == ctx.id(),
            other.ctx_id() == ctx.id(),
        ensures
            r.plain() == (self.plain() <= other.plain()),
            r.ctx_id() == ctx.id(),
    {
        tfhe::set_server_key(ctx.sk.as_ref().unwrap().clone());
        EncBool {
            ct: self.ct.inner.le(&other.ct.inner),
            plain: Ghost(arbitrary()),
            key: Ghost(arbitrary()),
        }
    }

    /// Relies on tfhe::set_server_key, then CastFrom<FheBool> for
    /// FheUint16: true casts to 1, false to 0.
    #[verifier::external_body]
    fn raw_from_bool(b: &EncBool, ctx: &FheContext) -> (r: Enc16)
        requires
            ctx.holds_server_key(),
            b.ctx_id() == ctx.id(),
        ensures
            r.plain() == (if b.plain() { 1nat } else { 0nat }),
            r.ctx_id() == ctx.id(),
    {
        tfhe::set_server_key(ctx.sk.as_ref().unwrap().clone());
        Enc16 {
            ct: Ct16 { inner: b.ct.clone().cast_into() },
            plain: Ghost(arbitrary()),
            key: Ghost(arbitrary()),
        }
    }
}

impl EncVal for Enc16 {
    open spec fn width() -> nat {
        16
    }

    closed spec fn plain(&self) -> nat {
        self.plain@
    }

    closed spec fn ctx_id(&self) -> int {
        self.key@
    }

    proof fn lemma_width() {
    }

    fn max_value() -> (r: u32) {
        proof {
            lemma2_to64();
        }
        65535
    }

    fn encrypt(v: u32, ctx: &FheContext) -> (r: Self) {
        Enc16::raw_encrypt(v, ctx)
    }

    fn decrypt(&self, ctx: &FheContext) -> (r: u32) {
        self.raw_decrypt(ctx)
    }

    fn hom_add(&self, other: &Self, ctx: &FheContext) -> (r: Self) {
        self.raw_add(other, ctx)
    }

    fn hom_sub(&self, other: &Self, ctx: &FheContext) -> (r: Self) {
        self.raw_sub(other, ctx)
    }

    fn hom_mul(&self, other: &Self, ctx: &FheContext) -> (r: Self) {
        self.raw_mul(other, ctx)
    }

    fn hom_lt(&self, other: &Self, ctx: &FheContext) -> (r: EncBool) {
        self.raw_lt(other, ctx)
    }

    fn hom_le(&self, other: &Self, ctx: &FheContext) -> (r: EncBool) {
        self.raw_le(other, ctx)
    }

    fn from_bool(b: &EncBool, ctx: &FheContext) -> (r: Self) {
        Enc16::raw_from_bool(b, ctx)
    }
}

/// An encrypted 32-bit unsigned integer.
pub struct Enc32 {
    ct: Ct32,
    plain: Ghost<nat>,
    key: Ghost<int>,
}

impl Enc32 {
    /// Relies on FheUint32::try_encrypt under the context's client key; a
    /// value within the width encrypts without error.
    #[verifier::external_body]
    fn raw_encrypt(v: u32, ctx: &FheContext) -> (r: Enc32)
        requires
            (v as nat) < pow2(32),
        ensures
            r.plain() == v as nat,
            r.ctx_id() == ctx.id(),
    {
        Enc32 {
            ct: Ct32 { inner: FheUint32::try_encrypt(v, &ctx.ck).unwrap() },
            plain: Ghost(arbitrary()),
            key: Ghost(arbitrary()),
        }
    }

    /// Relies on FheUint32::decrypt under the context's client key.
    #[verifier::external_body]
    fn raw_decrypt(&self, ctx: &FheContext) -> (r: u32)
        requires
            self.ctx_id() == ctx.id(),
        ensures
            r as nat == self.plain(),
    {
        self.ct.inner.decrypt(&ctx.ck)
    }

    /// Relies on tfhe::set_server_key, then homomorphic addition of
    /// FheUint32, which wraps modulo 2^32.
    #[verifier::external_body]
    fn raw_add(&self, other: &Enc32, ctx: &FheContext) -> (r: Enc32)
        requires
            ctx.holds_server_key(),
            self.ctx_id() == ctx.id(),
            other.ctx_id() == ctx.id(),
        ensures
            r.plain() == (self.plain() + other.plain()) % pow2(32),
            r.ctx_id() == ctx.id(),
    {
        tfhe::set_server_key(ctx.sk.as_ref().unwrap().clone());
        Enc32 {
            ct: Ct32 { inner: &self.ct.inner + &other.ct.inner },
            plain: Ghost(arbitrary()),
            key: Ghost(arbitrary()),
        }
    }

    /// Relies on tfhe::set_server_key, then homomorphic subtraction of
    /// FheUint32, stated only where it cannot wrap.
    #[verifier::external_body]
    fn raw_sub(&self, other: &Enc32, ctx: &FheContext) -> (r: Enc32)
        requires
            ctx.holds_server_key(),
            self.ctx_id() == ctx.id(),
            other.ctx_id() == ctx.id(),
            other.plain() <= self.plain(),
        ensures
            r.plain() == self.plain() - other.plain(),
            r.ctx_id() == ctx.id(),
    {
        tfhe::set_server_key(ctx.sk.as_ref().unwrap().clone());
        Enc32 {
            ct: Ct32 { inner: &self.ct.inner - &other.ct.inner },
            plain: Ghost(arbitrary()),
            key: Ghost(arbitrary()),
        }
    }

    /// Relies on tfhe::set_server_key, then homomorphic multiplication
    /// of FheUint32, stated only where the product fits the width.
    #[verifier::external_body]
    fn raw_mul(&self, other: &Enc32, ctx: &FheContext) -> (r: Enc32)
        requires
            ctx.holds_server_key(),
            self.ctx_id() == ctx.id(),
            other.ctx_id() == ctx.id(),
            self.plain() * other.plain() < pow2(32),
        ensures
            r.plain() == self.plain() * other.plain(),
            r.ctx_id() == ctx.id(),
    {
        tfhe::set_server_key(ctx.sk.as_ref().unwrap().clone());
        Enc32 {
            ct: Ct32 { inner: &self.ct.inner * &other.ct.inner },
            plain: Ghost(arbitrary()),
            key: Ghost(arbitrary()),
        }
    }

    /// Relies on tfhe::set_server_key, then FheOrd::lt for FheUint32.
    #[verifier::external_body]
    fn raw_lt(&self, other: &Enc32, ctx: &FheContext) -> (r: EncBool)
        requires
            ctx.holds_server_key(),
            self.ctx_id() == ctx.id(),
            other.ctx_id() == ctx.id(),
        ensures
            r.plain() == (self.plain() < other.plain()),
            r.ctx_id() == ctx.id(),
    {
        tfhe::set_server_key(ctx.sk.as_ref().unwrap().clone());
        EncBool {
            ct: self.ct.inner.lt(&other.ct.inner),
            plain: Ghost(arbitrary()),
            key: Ghost(arbitrary()),
        }
    }

    /// Relies on tfhe::set_server_key, then FheOrd::le for FheUint32.
    #[verifier::external_body]
    fn raw_le(&self, other: &Enc32, ctx: &FheContext) -> (r: EncBool)
        requires
            ctx.holds_server_key(),
            self.ctx_id() == ctx.id(),
            other.ctx_id() == ctx.id(),
        ensures
            r.plain() == (self.plain() <= other.plain()),
            r.ctx_id() == ctx.id(),
    {
        tfhe::set_server_key(ctx.sk.as_ref().unwrap().clone());
        EncBool {
            ct: self.ct.inner.le(&other.ct.inner),
            plain: Ghost(arbitrary()),
            key: Ghost(arbitrary()),
        }
    }

    /// Relies on tfhe::set_server_key, then CastFrom<FheBool> for
    /// FheUint32: true casts to 1, false to 0.
    #[verifier::external_body]
    fn raw_from_bool(b: &EncBool, ctx: &FheContext) -> (r: Enc32)
        requires
            ctx.holds_server_key(),
            b.ctx_id() == ctx.id(),
        ensures
            r.plain() == (if b.plain() { 1nat } else { 0nat }),
            r.ctx_id() == ctx.id(),
    {
        tfhe::set_server_key(ctx.sk.as_ref().unwrap().clone());
        Enc32 {
            ct: Ct32 { inner: b.ct.clone().cast_into() },
            plain: Ghost(arbitrary()),
            key: Ghost(arbitrary()),
        }
    }
}

impl EncVal for Enc32 {
    open spec fn width() -> nat {
        32
    }

    closed spec fn plain(&self) -> nat {
        self.plain@
    }

    closed spec fn ctx_id(&self) -> int {
        self.key@
    }

    proof fn lemma_width() {
    }

    fn max_value() -> (r: u32) {
        proof {
            lemma2_to64();
        }
        4294967295
    }

    fn encrypt(v: u32, ctx: &FheContext) -> (r: Self) {
        Enc32::raw_encrypt(v, ctx)
    }

    fn decrypt(&self, ctx: &FheContext) -> (r: u32) {
        self.raw_decrypt(ctx)
    }

    fn hom_add(&self, other: &Self, ctx: &FheContext) -> (r: Self) {
        self.raw_add(other, ctx)
    }

    fn hom_sub(&self, other: &Self, ctx: &FheContext) -> (r: Self) {
        self.raw_sub(other, ctx)
    }

    fn hom_mul(&self, other: &Self, ctx: &FheContext) -> (r: Self) {
        self.raw_mul(other, ctx)
    }

    fn hom_lt(&self, other: &Self, ctx: &FheContext) -> (r: EncBool) {
        self.raw_lt(other, ctx)
    }

    fn hom_le(&self, other: &Self, ctx: &FheContext) -> (r: EncBool) {
        self.raw_le(other, ctx)
    }

    fn from_bool(b: &EncBool, ctx: &FheContext) -> (r: Self) {
        Enc32::raw_from_bool(b, ctx)
    }
}


/// Relies on tfhe::set_server_key, then CastFrom<FheUint6> for
/// FheUint12: widening a ciphertext preserves the value it decrypts to.
#[verifier::external_body]
pub fn widen_6_to_12(x: &Enc6, ctx: &FheContext) -> (r: Enc12)
    requires
        ctx.holds_server_key(),
        x.ctx_id() == ctx.id(),
    ensures
        r.plain() == x.plain(),
        r.ctx_id() == ctx.id(),
{
    tfhe::set_server_key(ctx.sk.as_ref().unwrap().clone());
    Enc12 {
        ct: Ct12 { inner: x.ct.inner.clone().cast_into() },
        plain: Ghost(arbitrary()),
        key: Ghost(arbitrary()),
    }
}

/// Relies on tfhe::set_server_key, then CastFrom<FheUint8> for
/// FheUint16: widening a ciphertext preserves the value it decrypts to.
#[verifier::external_body]
pub fn widen_8_to_16(x: &Enc8, ctx: &FheContext) -> (r: Enc16)
    requires
        ctx.holds_server_key(),
        x.ctx_id() == ctx.id(),
    ensures
        r.plain() == x.plain(),
        r.ctx_id() == ctx.id(),
{
    tfhe::set_server_key(ctx.sk.as_ref().unwrap().clone());
    Enc16 {
        ct: Ct16 { inner: x.ct.inner.clone().cast_into() },
        plain: Ghost(arbitrary()),
        key: Ghost(arbitrary()),
    }
}

/// Relies on tfhe::set_server_key, then CastFrom<FheUint12> for
/// FheUint32: widening a ciphertext preserves the value it decrypts to.
#[verifier::external_body]
pub fn widen_12_to_32(x: &Enc12, ctx: &FheContext) -> (r: Enc32)
    requires
        ctx.holds_server_key(),
        x.ctx_id() == ctx.id(),
    ensures
        r.plain() == x.plain(),
        r.ctx_id() == ctx.id(),
{
    tfhe::set_server_key(ctx.sk.as_ref().unwrap().clone());
    Enc32 {
        ct: Ct32 { inner: x.ct.inner.clone().cast_into() },
        plain: Ghost(arbitrary()),
        key: Ghost(arbitrary()),
    }
}

/// Relies on tfhe::set_server_key, then CastFrom<FheUint16> for
/// FheUint32: widening a ciphertext preserves the value it decrypts to.
#[verifier::external_body]
pub fn widen_16_to_32(x: &Enc16, ctx: &FheContext) -> (r: Enc32)
    requires
        ctx.holds_server_key(),
        x.ctx_id() == ctx.id(),
    ensures
        r.plain() == x.plain(),
        r.ctx_id() == ctx.id(),
{
    tfhe::set_server_key(ctx.sk.as_ref().unwrap().clone());
    Enc32 {
        ct: Ct32 { inner: x.ct.inner.clone().cast_into() },
        plain: Ghost(arbitrary()),
        key: Ghost(arbitrary()),
    }
}


/// Round trip at any supported width: decrypting a fresh encryption
/// returns exactly the value that was encrypted, for every value the
/// width can hold.
pub fn encrypt_then_decrypt<E: EncVal>(v: u32, ctx: &FheContext) -> (r: u32)
    requires
        (v as nat) < pow2(E::width()),
    ensures
        r == v,
{
    let c = E::encrypt(v, ctx);
    c.decrypt(ctx)
}
} // verus!
