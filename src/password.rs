//! Password derivation: a site name, a counter and a master secret are turned
//! into a password that follows a character-class policy.
use sha2::Digest;
use vstd::prelude::*;
use vstd::string::StringExecFns;
use vstd::utf8::encode_utf8;
use zeroize::Zeroize;

use crate::text::{chars_to_string, push_char};

verus! {

/// How a password is produced for a site.
#[derive(Debug, Clone, Copy, PartialEq, Eq, Structural)]
pub enum GenerationMode {
    /// Memory-hard key derivation over the master secret, salted by the site.
    Argon2id,
    /// The literal `master ! site`; intentionally weak.
    Concatenation,
}

impl Default for GenerationMode {
    fn default() -> (r: Self)
        ensures
            r == GenerationMode::Argon2id,
    {
        GenerationMode::Argon2id
    }
}

/// The policy a generated password must follow.
#[derive(Debug, Clone, Copy)]
pub struct PasswordConfig {
    pub length: usize,
    pub use_lowercase: bool,
    pub use_uppercase: bool,
    pub use_digits: bool,
    pub use_symbols: bool,
    pub mode: GenerationMode,
}

impl Default for PasswordConfig {
    fn default() -> (r: Self)
        ensures
            r.length == 16,
            r.use_lowercase && r.use_uppercase && r.use_digits && r.use_symbols,
            r.mode == GenerationMode::Argon2id,
    {
        PasswordConfig {
            length: 16,
            use_lowercase: true,
            use_uppercase: true,
            use_digits: true,
            use_symbols: true,
            mode: GenerationMode::default(),
        }
    }
}

/// The lowercase class, in order.
pub open spec fn lowercase_class() -> Seq<char> {
    seq![
        'a', 'b', 'c', 'd', 'e', 'f', 'g', 'h', 'i', 'j', 'k', 'l', 'm', 'n', 'o', 'p', 'q', 'r',
        's', 't', 'u', 'v', 'w', 'x', 'y', 'z',
    ]
}

/// The uppercase class, in order.
pub open spec fn uppercase_class() -> Seq<char> {
    seq![
        'A', 'B', 'C', 'D', 'E', 'F', 'G', 'H', 'I', 'J', 'K', 'L', 'M', 'N', 'O', 'P', 'Q', 'R',
        'S', 'T', 'U', 'V', 'W', 'X', 'Y', 'Z',
    ]
}

/// The digit class, in order.
pub open spec fn digit_class() -> Seq<char> {
    seq!['0', '1', '2', '3', '4', '5', '6', '7', '8', '9']
}

/// The symbol class: every printable ASCII punctuation character, in ASCII order.
pub open spec fn symbol_class() -> Seq<char> {
    seq![
        '!', '"', '#', '$', '%', '&', '\'', '(', ')', '*', '+', ',', '-', '.', '/', ':', ';', '<',
        '=', '>', '?', '@', '[', '\\', ']', '^', '_', '`', '{', '|', '}', '~',
    ]
}

fn lowercase_chars() -> (r: Vec<char>)
    ensures
        r@ == lowercase_class(),
{
    vec![
        'a', 'b', 'c', 'd', 'e', 'f', 'g', 'h', 'i', 'j', 'k', 'l', 'm', 'n', 'o', 'p', 'q', 'r',
        's', 't', 'u', 'v', 'w', 'x', 'y', 'z',
    ]
}

fn uppercase_chars() -> (r: Vec<char>)
    ensures
        r@ == uppercase_class(),
{
    vec![
        'A', 'B', 'C', 'D', 'E', 'F', 'G', 'H', 'I', 'J', 'K', 'L', 'M', 'N', 'O', 'P', 'Q', 'R',
        'S', 'T', 'U', 'V', 'W', 'X', 'Y', 'Z',
    ]
}

fn digit_chars() -> (r: Vec<char>)
    ensures
        r@ == digit_class(),
{
    vec!['0', '1', '2', '3', '4', '5', '6', '7', '8', '9']
}

fn symbol_chars() -> (r: Vec<char>)
    ensures
        r@ == symbol_class(),
{
    vec![
        '!', '"', '#', '$', '%', '&', '\'', '(', ')', '*', '+', ',', '-', '.', '/', ':', ';', '<',
        '=', '>', '?', '@', '[', '\\', ']', '^', '_', '`', '{', '|', '}', '~',
    ]
}

/// The active charset: the enabled classes concatenated in their fixed order.
pub open spec fn charset_of(cfg: PasswordConfig) -> Seq<char> {
    (if cfg.use_lowercase { lowercase_class() } else { Seq::empty() })
        + (if cfg.use_uppercase { uppercase_class() } else { Seq::empty() })
        + (if cfg.use_digits { digit_class() } else { Seq::empty() })
        + (if cfg.use_symbols { symbol_class() } else { Seq::empty() })
}

/// How many classes a policy enables.
pub open spec fn enabled_count(cfg: PasswordConfig) -> nat {
    (if cfg.use_lowercase { 1nat } else { 0 }) + (if cfg.use_uppercase { 1nat } else { 0 }) + (
    if cfg.use_digits { 1nat } else { 0 }) + (if cfg.use_symbols { 1nat } else { 0 })
}

impl PasswordConfig {
    /// The active charset of this policy.
    pub fn build_charset(&self) -> (r: Vec<char>)
        ensures
            r@ == charset_of(*self),
    {
        let mut charset: Vec<char> = Vec::new();
        if self.use_lowercase {
            let mut part = lowercase_chars();
            charset.append(&mut part);
        }
        if self.use_uppercase {
            let mut part = uppercase_chars();
            charset.append(&mut part);
        }
        if self.use_digits {
            let mut part = digit_chars();
            charset.append(&mut part);
        }
        if self.use_symbols {
            let mut part = symbol_chars();
            charset.append(&mut part);
        }
        assert(charset@ =~= charset_of(*self));
        charset
    }

    /// The number of enabled classes.
    pub fn count_enabled_charsets(&self) -> (r: usize)
        ensures
            r == enabled_count(*self),
    {
        let mut n: usize = 0;
        if self.use_lowercase {
            n = n + 1;
        }
        if self.use_uppercase {
            n = n + 1;
        }
        if self.use_digits {
            n = n + 1;
        }
        if self.use_symbols {
            n = n + 1;
        }
        n
    }
}

/// Bytes read as one big-endian unsigned integer.
pub open spec fn be_value(b: Seq<u8>) -> nat
    decreases b.len(),
{
    if b.len() == 0 {
        0
    } else {
        be_value(b.drop_last()) * 256 + b.last() as nat
    }
}

/// The integer that rendering starts from: the first sixteen bytes of the
/// entropy, big-endian.
pub open spec fn entropy_value(b: Seq<u8>) -> nat {
    be_value(b.take(if b.len() < 16 { b.len() as int } else { 16 }))
}

/// The integer `256^n`.
pub open spec fn pow256(n: nat) -> nat
    decreases n,
{
    if n == 0 {
        1
    } else {
        256 * pow256((n - 1) as nat)
    }
}

proof fn lemma_pow256_mono(a: nat, b: nat)
    requires
        a <= b,
    ensures
        pow256(a) <= pow256(b),
    decreases b,
{
    if a < b {
        lemma_pow256_mono(a, (b - 1) as nat);
    }
}

/// The first sixteen bytes of `bytes`, big-endian, as a `u128`.
pub fn bytes_to_big_uint(bytes: &[u8]) -> (r: u128)
    ensures
        r == entropy_value(bytes@),
{
    let n: usize = if bytes.len() < 16 { bytes.len() } else { 16 };
    let mut result: u128 = 0;
    let mut i: usize = 0;
    proof {
        reveal_with_fuel(pow256, 17);
    }
    while i < n
        invariant
            n <= 16,
            n <= bytes@.len(),
            i <= n,
            result == be_value(bytes@.take(i as int)),
            result < pow256(i as nat),
            pow256(16) == 0x1_0000_0000_0000_0000_0000_0000_0000_0000,
        decreases n - i,
    {
        let byte = bytes[i];
        proof {
            lemma_pow256_mono((i + 1) as nat, 16);
            lemma_pow256_mono(i as nat, 15);
            reveal_with_fuel(pow256, 16);
            assert(pow256(15) == 0x100_0000_0000_0000_0000_0000_0000_0000);
            let p = pow256(i as nat);
            assert(result * 256 + byte < p * 256) by (nonlinear_arith)
                requires
                    result < p,
                    byte < 256,
            ;
            assert(bytes@.take(i + 1).drop_last() =~= bytes@.take(i as int));
        }
        let r0 = result;
        result = (result << 8u32) | (byte as u128);
        assert(result == r0 * 256 + byte as u128) by (bit_vector)
            requires
                result == (r0 << 8u32) | (byte as u128),
                r0 < 0x100_0000_0000_0000_0000_0000_0000_0000,
                byte < 256,
        ;
        i = i + 1;
    }
    assert(bytes@.take(n as int) =~= bytes@.take(if bytes@.len() < 16 { bytes@.len() as int } else { 16 }));
    result
}

/// Quotient and remainder.
pub fn div_mod(dividend: u128, divisor: u128) -> (r: (u128, u128))
    requires
        divisor > 0,
    ensures
        r.0 == dividend / divisor,
        r.1 == dividend % divisor,
{
    (dividend / divisor, dividend % divisor)
}

/// The bulk characters: `n` digits drawn from `q` in base `|cs|`, least
/// significant first, with the quotient that remains.
pub open spec fn draw_bulk(q: nat, cs: Seq<char>, n: nat) -> (Seq<char>, nat)
    decreases n,
{
    if n == 0 {
        (Seq::empty(), q)
    } else {
        let prev = draw_bulk(q, cs, (n - 1) as nat);
        (prev.0.push(cs[(prev.1 % cs.len()) as int]), prev.1 / cs.len())
    }
}

/// One required character of `class`, when `on` holds: its character is
/// drawn first, then its position in the password (a password that is still
/// empty takes it with no position draw).
pub open spec fn place_one(s: (Seq<char>, nat), on: bool, class: Seq<char>) -> (Seq<char>, nat) {
    if on {
        let c = class[(s.1 % class.len()) as int];
        let q = s.1 / class.len();
        if s.0.len() == 0 {
            (seq![c], q)
        } else {
            (s.0.insert((q % s.0.len()) as int, c), q / s.0.len())
        }
    } else {
        s
    }
}

/// One character of each enabled class placed into the password, class by
/// class in the fixed order lowercase, uppercase, digits, symbols.
pub open spec fn place_required(s: (Seq<char>, nat), cfg: PasswordConfig) -> (Seq<char>, nat) {
    place_one(
        place_one(
            place_one(
                place_one(s, cfg.use_lowercase, lowercase_class()),
                cfg.use_uppercase,
                uppercase_class(),
            ),
            cfg.use_digits,
            digit_class(),
        ),
        cfg.use_symbols,
        symbol_class(),
    )
}

/// How many bulk characters a policy asks for.
pub open spec fn base_length(cfg: PasswordConfig) -> nat {
    if cfg.length >= enabled_count(cfg) {
        (cfg.length - enabled_count(cfg)) as nat
    } else {
        0
    }
}

/// The password rendered from `entropy` under `cfg`.
pub open spec fn render_spec(entropy: Seq<u8>, cfg: PasswordConfig) -> Seq<char> {
    place_required(draw_bulk(entropy_value(entropy), charset_of(cfg), base_length(cfg)), cfg).0
}

proof fn lemma_class_lengths()
    ensures
        lowercase_class().len() == 26,
        uppercase_class().len() == 26,
        digit_class().len() == 10,
        symbol_class().len() == 32,
{
}

proof fn lemma_charset_nonempty(cfg: PasswordConfig)
    requires
        enabled_count(cfg) > 0,
    ensures
        charset_of(cfg).len() > 0,
{
    lemma_class_lengths();
}

/// Draws one character of `class` from `quotient`, then its position, and
/// inserts it into `password`.
fn place_from(class: &Vec<char>, quotient: &mut u128, password: &mut Vec<char>)
    requires
        class@.len() > 0,
        old(password)@.len() < usize::MAX,
    ensures
        (final(password)@, *final(quotient) as nat) == place_one(
            (old(password)@, *old(quotient) as nat),
            true,
            class@,
        ),
{
    let (next, rem) = div_mod(*quotient, class.len() as u128);
    let ch = class[rem as usize];
    *quotient = next;
    if password.len() == 0 {
        password.push(ch);
        assert(password@ =~= seq![ch]);
    } else {
        let (next, pos) = div_mod(*quotient, password.len() as u128);
        password.insert(pos as usize, ch);
        *quotient = next;
    }
}

/// Draws `n` bulk characters of `charset` from `quotient`.
fn draw_bulk_chars(charset: &[char], quotient: &mut u128, n: usize) -> (r: Vec<char>)
    requires
        charset@.len() > 0,
    ensures
        (r@, *final(quotient) as nat) == draw_bulk(*old(quotient) as nat, charset@, n as nat),
        r@.len() == n,
{
    let ghost q0 = *quotient as nat;
    let charset_len = charset.len() as u128;
    let mut password: Vec<char> = Vec::with_capacity(n);
    let mut i: usize = 0;
    while i < n
        invariant
            charset_len == charset@.len(),
            charset_len > 0,
            i <= n,
            (password@, *quotient as nat) == draw_bulk(q0, charset@, i as nat),
            password@.len() == i,
        decreases n - i,
    {
        let (next, rem) = div_mod(*quotient, charset_len);
        password.push(charset[rem as usize]);
        *quotient = next;
        i = i + 1;
    }
    password
}

/// Places one character of each enabled class into `password`.
fn place_required_chars(config: &PasswordConfig, quotient: &mut u128, password: &mut Vec<char>)
    requires
        old(password)@.len() + enabled_count(*config) <= usize::MAX,
    ensures
        (final(password)@, *final(quotient) as nat) == place_required(
            (old(password)@, *old(quotient) as nat),
            *config,
        ),
{
    proof {
        lemma_class_lengths();
    }
    let ghost s0 = (password@, *quotient as nat);
    if config.use_lowercase {
        let class = lowercase_chars();
        place_from(&class, quotient, password);
    }
    let ghost s1 = place_one(s0, config.use_lowercase, lowercase_class());
    proof {
        lemma_place_one(s0, config.use_lowercase, lowercase_class());
    }
    if config.use_uppercase {
        let class = uppercase_chars();
        place_from(&class, quotient, password);
    }
    let ghost s2 = place_one(s1, config.use_uppercase, uppercase_class());
    proof {
        lemma_place_one(s1, config.use_uppercase, uppercase_class());
    }
    if config.use_digits {
        let class = digit_chars();
        place_from(&class, quotient, password);
    }
    proof {
        lemma_place_one(s2, config.use_digits, digit_class());
    }
    if config.use_symbols {
        let class = symbol_chars();
        place_from(&class, quotient, password);
    }
}

/// Renders entropy into a password under `config`: bulk characters from the
/// whole charset first, then one character of each enabled class inserted at
/// drawn positions.
pub fn render_password(entropy: &[u8], charset: &[char], config: &PasswordConfig) -> (r: String)
    requires
        charset@ == charset_of(*config),
        enabled_count(*config) > 0,
    ensures
        r@ == render_spec(entropy@, *config),
{
    proof {
        lemma_charset_nonempty(*config);
    }
    let mut quotient = bytes_to_big_uint(entropy);
    let required_count = config.count_enabled_charsets();
    let base_length: usize = if config.length >= required_count {
        config.length - required_count
    } else {
        0
    };
    let mut password = draw_bulk_chars(charset, &mut quotient, base_length);
    place_required_chars(config, &mut quotient, &mut password);
    chars_to_string(&password)
}

/// Memory cost of the key derivation, in KiB blocks.
pub const ARGON2_M_COST: u32 = 19456;

/// Iterations of the key derivation.
pub const ARGON2_T_COST: u32 = 2;

/// Lanes of the key derivation.
pub const ARGON2_P_COST: u32 = 1;

/// Size of the entropy buffer produced per derivation.
pub const ENTROPY_BYTES: usize = 64;

/// Why a password could not be generated.
#[derive(Debug, Clone, Copy, PartialEq, Eq, Structural)]
pub enum PasswordError {
    /// The policy enables no character class.
    NoCharacterClass,
    /// The key-derivation step failed.
    Derivation,
}

#[verifier::external_type_specification]
#[verifier::external_body]
pub struct ExArgon2Error(argon2::Error);

/// What `str::to_lowercase` returns for a string.
pub uninterp spec fn lower_of(s: Seq<char>) -> Seq<char>;

/// The SHA-256 digest of a byte sequence.
pub uninterp spec fn sha256_of(data: Seq<u8>) -> Seq<u8>;

/// The Argon2id (version 0x13) output of `out_len` bytes for a password and a
/// salt under the given memory, time and lane costs.
pub uninterp spec fn argon2id_of(
    pwd: Seq<u8>,
    salt: Seq<u8>,
    m_cost: u32,
    t_cost: u32,
    p_cost: u32,
    out_len: nat,
) -> Seq<u8>;

/// Relies on `str::to_lowercase`: the result depends on the characters alone.
#[verifier::external_body]
pub(crate) fn lowercase(s: &str) -> (r: String)
    ensures
        r@ == lower_of(s@),
{
    s.to_lowercase()
}

/// Relies on `sha2::Sha256::digest`: the 32-byte digest of the data.
#[verifier::external_body]
fn sha256(data: &[u8]) -> (r: Vec<u8>)
    ensures
        r@ == sha256_of(data@),
        r@.len() == 32,
{
    sha2::Sha256::digest(data).to_vec()
}

/// The inputs on which Argon2 succeeds: costs with at least 8 KiB of memory
/// per lane, one pass and one to 2^24 - 1 lanes, an output of 4 to 2^32 - 1
/// bytes, a password of at most 2^32 - 1 bytes and a salt of 8 to 2^32 - 1
/// bytes.
pub open spec fn argon2_inputs_valid(
    pwd_len: nat,
    salt_len: nat,
    m_cost: u32,
    t_cost: u32,
    p_cost: u32,
    out_len: nat,
) -> bool {
    &&& 8 <= m_cost
    &&& p_cost * 8 <= m_cost
    &&& 1 <= t_cost
    &&& 1 <= p_cost <= 0xFF_FFFF
    &&& 4 <= out_len <= 0xFFFF_FFFF
    &&& pwd_len <= 0xFFFF_FFFF
    &&& 8 <= salt_len <= 0xFFFF_FFFF
}

/// Relies on `argon2::Params::new`, `argon2::Argon2::new` and
/// `argon2::Argon2::hash_password_into`: Argon2id, version 0x13, with the
/// given costs and an output as long as `out`, written into `out` on success.
/// It fails exactly when `Params::new` refuses the costs or output length, or
/// `hash_password_into` refuses the password or salt length.
#[verifier::external_body]
fn argon2id_hash_into(
    pwd: &[u8],
    salt: &[u8],
    m_cost: u32,
    t_cost: u32,
    p_cost: u32,
    out: &mut Vec<u8>,
) -> (r: Result<(), argon2::Error>)
    requires
        p_cost < 0x2000_0000,
    ensures
        final(out)@.len() == old(out)@.len(),
        r is Ok <==> argon2_inputs_valid(
            pwd@.len(),
            salt@.len(),
            m_cost,
            t_cost,
            p_cost,
            old(out)@.len(),
        ),
        r is Ok ==> final(out)@ == argon2id_of(
            pwd@,
            salt@,
            m_cost,
            t_cost,
            p_cost,
            old(out)@.len(),
        ),
{
    let params = argon2::Params::new(m_cost, t_cost, p_cost, Some(out.len()))?;
    let engine = argon2::Argon2::new(argon2::Algorithm::Argon2id, argon2::Version::V0x13, params);
    engine.hash_password_into(pwd, salt, out.as_mut_slice())
}

/// Relies on `zeroize::Zeroize` for `Vec<u8>`: every byte is overwritten with
/// zero and the vector is emptied.
#[verifier::external_body]
fn wipe_bytes(v: &mut Vec<u8>)
    ensures
        final(v)@.len() == 0,
{
    v.zeroize();
}

/// The four little-endian bytes of a counter.
pub open spec fn le_bytes(c: u32) -> Seq<u8> {
    seq![
        (c % 256) as u8,
        ((c / 256) % 256) as u8,
        ((c / 65536) % 256) as u8,
        (c / 16777216) as u8,
    ]
}

/// The salt for an already normalized site and a counter.
pub open spec fn salt_of(site: Seq<char>, counter: u32) -> Seq<u8> {
    sha256_of(encode_utf8(site) + le_bytes(counter))
}

/// The entropy derived for a master secret, a site and a counter.
pub open spec fn keyed_entropy(master: Seq<char>, site: Seq<char>, counter: u32) -> Seq<u8> {
    argon2id_of(
        encode_utf8(master),
        salt_of(lower_of(site), counter),
        ARGON2_M_COST,
        ARGON2_T_COST,
        ARGON2_P_COST,
        ENTROPY_BYTES as nat,
    )
}

/// The password of keyed mode.
pub open spec fn keyed_password(
    master: Seq<char>,
    site: Seq<char>,
    counter: u32,
    cfg: PasswordConfig,
) -> Seq<char> {
    render_spec(keyed_entropy(master, site, counter), cfg)
}

/// The password of concatenation mode: `master ! site`, the site as typed.
pub open spec fn concatenation_password(master: Seq<char>, site: Seq<char>) -> Seq<char> {
    master + seq!['!'] + site
}

/// The password that `generate_password` returns when it succeeds.
pub open spec fn password_for(
    master: Seq<char>,
    site: Seq<char>,
    counter: u32,
    cfg: PasswordConfig,
) -> Seq<char> {
    if cfg.mode == GenerationMode::Concatenation {
        concatenation_password(master, site)
    } else {
        keyed_password(master, site, counter, cfg)
    }
}

/// Everything `generate_password` returns, success or failure, as a function
/// of its inputs.
pub open spec fn generate_spec(
    master: Seq<char>,
    site: Seq<char>,
    counter: u32,
    cfg: PasswordConfig,
) -> Result<Seq<char>, PasswordError> {
    if cfg.mode == GenerationMode::Concatenation {
        Ok(concatenation_password(master, site))
    } else if enabled_count(cfg) == 0 {
        Err(PasswordError::NoCharacterClass)
    } else if encode_utf8(master).len() <= 0xFFFF_FFFF {
        Ok(keyed_password(master, site, counter, cfg))
    } else {
        Err(PasswordError::Derivation)
    }
}

/// A generation result with the password as a sequence of characters.
pub open spec fn outcome_of(r: Result<String, PasswordError>) -> Result<Seq<char>, PasswordError> {
    match r {
        Ok(pw) => Ok(pw@),
        Err(e) => Err(e),
    }
}

/// SHA-256 over the site's UTF-8 bytes followed by the counter's four
/// little-endian bytes.
pub fn build_salt(site: &str, counter: u32) -> (r: Vec<u8>)
    ensures
        r@ == salt_of(site@, counter),
        r@.len() == 32,
{
    let mut data = site.as_bytes_vec();
    let ghost site_bytes = data@;
    data.push((counter % 256) as u8);
    data.push(((counter / 256) % 256) as u8);
    data.push(((counter / 65536) % 256) as u8);
    data.push((counter / 16777216) as u8);
    assert(data@ =~= encode_utf8(site@) + le_bytes(counter));
    sha256(data.as_slice())
}

/// Runs the key derivation over the master secret with the salt, into a
/// buffer of `ENTROPY_BYTES` bytes; the buffer is wiped if the derivation fails.
pub fn derive_entropy(master_key: &str, salt: &[u8]) -> (r: Result<Vec<u8>, PasswordError>)
    ensures
        match r {
            Ok(e) => e@ == argon2id_of(
                encode_utf8(master_key@),
                salt@,
                ARGON2_M_COST,
                ARGON2_T_COST,
                ARGON2_P_COST,
                ENTROPY_BYTES as nat,
            ),
            Err(e) => e == PasswordError::Derivation,
        },
        r is Ok <==> (encode_utf8(master_key@).len() <= 0xFFFF_FFFF && 8 <= salt@.len()
            <= 0xFFFF_FFFF),
{
    let mut entropy: Vec<u8> = vec![0u8; ENTROPY_BYTES];
    let pwd = master_key.as_bytes();
    match argon2id_hash_into(pwd, salt, ARGON2_M_COST, ARGON2_T_COST, ARGON2_P_COST, &mut entropy) {
        Ok(()) => Ok(entropy),
        Err(_) => {
            wipe_bytes(&mut entropy);
            Err(PasswordError::Derivation)
        },
    }
}

/// Generates the password for `site` under `config`.
///
/// Concatenation mode returns `master_key ! site` as typed. Otherwise a policy
/// with no character class is refused, and the password is rendered from the
/// key derivation over the master secret, salted with the lowercased site and
/// the counter; the entropy is wiped afterwards. The key derivation fails,
/// and with it the request, only on a master secret longer than 2^32 - 1
/// bytes.
pub fn generate_password(
    master_key: &str,
    site: &str,
    counter: u32,
    config: &PasswordConfig,
) -> (r: Result<String, PasswordError>)
    ensures
        config.mode == GenerationMode::Concatenation ==> r is Ok,
        config.mode != GenerationMode::Concatenation && enabled_count(*config) == 0 ==> r == Err::<
            String,
            PasswordError,
        >(PasswordError::NoCharacterClass),
        config.mode != GenerationMode::Concatenation && enabled_count(*config) > 0 ==> (r is Ok
            <==> encode_utf8(master_key@).len() <= 0xFFFF_FFFF),
        config.mode != GenerationMode::Concatenation && enabled_count(*config) > 0 && r is Err
            ==> r == Err::<String, PasswordError>(PasswordError::Derivation),
        r is Ok ==> r->Ok_0@ == password_for(master_key@, site@, counter, *config),
        outcome_of(r) == generate_spec(master_key@, site@, counter, *config),
{
    if config.mode == GenerationMode::Concatenation {
        let mut pw = master_key.to_owned();
        push_char(&mut pw, '!');
        pw.append(site);
        assert(pw@ =~= concatenation_password(master_key@, site@));
        return Ok(pw);
    }
    let charset = config.build_charset();
    proof {
        lemma_class_lengths();
    }
    if charset.len() == 0 {
        return Err(PasswordError::NoCharacterClass);
    }
    let site_normalized = lowercase(site);
    let salt = build_salt(site_normalized.as_str(), counter);
    let mut entropy = match derive_entropy(master_key, salt.as_slice()) {
        Ok(e) => e,
        Err(e) => {
            return Err(e);
        },
    };
    let password = render_password(entropy.as_slice(), charset.as_slice(), config);
    wipe_bytes(&mut entropy);
    Ok(password)
}

proof fn lemma_place_one(s: (Seq<char>, nat), on: bool, class: Seq<char>)
    requires
        class.len() > 0,
    ensures
        place_one(s, on, class).0.len() == s.0.len() + (if on { 1int } else { 0 }),
        forall|x: char| s.0.contains(x) ==> place_one(s, on, class).0.contains(x),
        on ==> exists|i: int|
            0 <= i < place_one(s, on, class).0.len() && class.contains(
                #[trigger] place_one(s, on, class).0[i],
            ),
{
    if on {
        let c = class[(s.1 % class.len()) as int];
        let q = s.1 / class.len();
        let r = place_one(s, on, class).0;
        assert(class.contains(c));
        if s.0.len() == 0 {
            assert(r[0] == c);
        } else {
            let pos = (q % s.0.len()) as int;
            s.0.insert_ensures(pos, c);
            assert(r[pos] == c);
            assert forall|x: char| s.0.contains(x) implies r.contains(x) by {
                let i = choose|i: int| 0 <= i < s.0.len() && s.0[i] == x;
                if i < pos {
                    assert(r[i] == x);
                } else {
                    assert(r[i + 1] == x);
                }
            }
        }
    }
}

proof fn lemma_place_keeps_class(s: (Seq<char>, nat), on: bool, class: Seq<char>, kept: Seq<char>)
    requires
        class.len() > 0,
        has_char_of(s.0, kept),
    ensures
        has_char_of(place_one(s, on, class).0, kept),
{
    lemma_place_one(s, on, class);
    let i = choose|i: int| 0 <= i < s.0.len() && kept.contains(#[trigger] s.0[i]);
    assert(s.0.contains(s.0[i]));
    lemma_contains_has(place_one(s, on, class).0, kept, s.0[i]);
}

/// A class whose characters appear in `pw`.
pub open spec fn has_char_of(pw: Seq<char>, class: Seq<char>) -> bool {
    exists|i: int| 0 <= i < pw.len() && class.contains(#[trigger] pw[i])
}

proof fn lemma_contains_has(pw: Seq<char>, class: Seq<char>, x: char)
    requires
        pw.contains(x),
        class.contains(x),
    ensures
        has_char_of(pw, class),
{
    let i = choose|i: int| 0 <= i < pw.len() && pw[i] == x;
    assert(class.contains(pw[i]));
}

/// A rendered password has exactly the policy's length, whenever the policy
/// enables at least one class and is at least as long as the number of
/// classes it enables.
pub proof fn lemma_render_length(entropy: Seq<u8>, cfg: PasswordConfig)
    requires
        enabled_count(cfg) > 0,
        cfg.length >= enabled_count(cfg),
    ensures
        render_spec(entropy, cfg).len() == cfg.length,
{
    lemma_class_lengths();
    let s0 = draw_bulk(entropy_value(entropy), charset_of(cfg), base_length(cfg));
    lemma_draw_bulk_len(entropy_value(entropy), charset_of(cfg), base_length(cfg));
    let s1 = place_one(s0, cfg.use_lowercase, lowercase_class());
    let s2 = place_one(s1, cfg.use_uppercase, uppercase_class());
    let s3 = place_one(s2, cfg.use_digits, digit_class());
    lemma_place_one(s0, cfg.use_lowercase, lowercase_class());
    lemma_place_one(s1, cfg.use_uppercase, uppercase_class());
    lemma_place_one(s2, cfg.use_digits, digit_class());
    lemma_place_one(s3, cfg.use_symbols, symbol_class());
}

proof fn lemma_draw_bulk_len(q: nat, cs: Seq<char>, n: nat)
    ensures
        draw_bulk(q, cs, n).0.len() == n,
    decreases n,
{
    if n > 0 {
        lemma_draw_bulk_len(q, cs, (n - 1) as nat);
    }
}

/// A rendered password holds at least one character of every class that the
/// policy enables.
pub proof fn lemma_render_class_presence(entropy: Seq<u8>, cfg: PasswordConfig)
    requires
        enabled_count(cfg) > 0,
    ensures
        cfg.use_lowercase ==> has_char_of(render_spec(entropy, cfg), lowercase_class()),
        cfg.use_uppercase ==> has_char_of(render_spec(entropy, cfg), uppercase_class()),
        cfg.use_digits ==> has_char_of(render_spec(entropy, cfg), digit_class()),
        cfg.use_symbols ==> has_char_of(render_spec(entropy, cfg), symbol_class()),
{
    lemma_class_lengths();
    let s0 = draw_bulk(entropy_value(entropy), charset_of(cfg), base_length(cfg));
    let s1 = place_one(s0, cfg.use_lowercase, lowercase_class());
    let s2 = place_one(s1, cfg.use_uppercase, uppercase_class());
    let s3 = place_one(s2, cfg.use_digits, digit_class());
    let s4 = place_one(s3, cfg.use_symbols, symbol_class());
    lemma_place_one(s0, cfg.use_lowercase, lowercase_class());
    lemma_place_one(s1, cfg.use_uppercase, uppercase_class());
    lemma_place_one(s2, cfg.use_digits, digit_class());
    lemma_place_one(s3, cfg.use_symbols, symbol_class());
    if cfg.use_lowercase {
        lemma_place_keeps_class(s1, cfg.use_uppercase, uppercase_class(), lowercase_class());
        lemma_place_keeps_class(s2, cfg.use_digits, digit_class(), lowercase_class());
        lemma_place_keeps_class(s3, cfg.use_symbols, symbol_class(), lowercase_class());
    }
    if cfg.use_uppercase {
        lemma_place_keeps_class(s2, cfg.use_digits, digit_class(), uppercase_class());
        lemma_place_keeps_class(s3, cfg.use_symbols, symbol_class(), uppercase_class());
    }
    if cfg.use_digits {
        lemma_place_keeps_class(s3, cfg.use_symbols, symbol_class(), digit_class());
    }
}

/// Two generations from the same inputs have the same outcome: both succeed
/// with the same password, or both fail with the same error.
pub proof fn lemma_generation_deterministic(
    master: Seq<char>,
    site: Seq<char>,
    counter: u32,
    cfg: PasswordConfig,
    first: Result<Seq<char>, PasswordError>,
    second: Result<Seq<char>, PasswordError>,
)
    requires
        first == generate_spec(master, site, counter, cfg),
        second == generate_spec(master, site, counter, cfg),
    ensures
        first == second,
{
}

/// Keyed generation with a class enabled and a master secret within the key
/// derivation's limit succeeds, and fails exactly when no class is enabled.
pub proof fn lemma_keyed_generation_succeeds(
    master: Seq<char>,
    site: Seq<char>,
    counter: u32,
    cfg: PasswordConfig,
)
    requires
        cfg.mode != GenerationMode::Concatenation,
        encode_utf8(master).len() <= 0xFFFF_FFFF,
    ensures
        generate_spec(master, site, counter, cfg) is Ok <==> enabled_count(cfg) > 0,
        enabled_count(cfg) == 0 ==> generate_spec(master, site, counter, cfg) == Err::<
            Seq<char>,
            PasswordError,
        >(PasswordError::NoCharacterClass),
{
}

/// Keyed passwords depend on the site only through its lowercase form.
pub proof fn lemma_generation_case_insensitive(
    master: Seq<char>,
    site_a: Seq<char>,
    site_b: Seq<char>,
    counter: u32,
    cfg: PasswordConfig,
)
    requires
        cfg.mode != GenerationMode::Concatenation,
        lower_of(site_a) == lower_of(site_b),
    ensures
        password_for(master, site_a, counter, cfg) == password_for(master, site_b, counter, cfg),
        generate_spec(master, site_a, counter, cfg) == generate_spec(master, site_b, counter, cfg),
{
}

/// A keyed password has exactly the policy's length when the policy is
/// satisfiable: at least one class, and a length no smaller than the number
/// of classes.
pub proof fn lemma_generation_length(
    master: Seq<char>,
    site: Seq<char>,
    counter: u32,
    cfg: PasswordConfig,
)
    requires
        cfg.mode != GenerationMode::Concatenation,
        enabled_count(cfg) > 0,
        cfg.length >= enabled_count(cfg),
    ensures
        password_for(master, site, counter, cfg).len() == cfg.length,
        encode_utf8(master).len() <= 0xFFFF_FFFF ==> generate_spec(master, site, counter, cfg)
            == Ok::<Seq<char>, PasswordError>(password_for(master, site, counter, cfg)),
{
    lemma_render_length(keyed_entropy(master, site, counter), cfg);
}

/// A keyed password holds a character of every enabled class.
pub proof fn lemma_generation_class_presence(
    master: Seq<char>,
    site: Seq<char>,
    counter: u32,
    cfg: PasswordConfig,
)
    requires
        cfg.mode != GenerationMode::Concatenation,
        enabled_count(cfg) > 0,
    ensures
        cfg.use_lowercase ==> has_char_of(password_for(master, site, counter, cfg), lowercase_class()),
        cfg.use_uppercase ==> has_char_of(password_for(master, site, counter, cfg), uppercase_class()),
        cfg.use_digits ==> has_char_of(password_for(master, site, counter, cfg), digit_class()),
        cfg.use_symbols ==> has_char_of(password_for(master, site, counter, cfg), symbol_class()),
        encode_utf8(master).len() <= 0xFFFF_FFFF ==> generate_spec(master, site, counter, cfg)
            == Ok::<Seq<char>, PasswordError>(password_for(master, site, counter, cfg)),
{
    lemma_render_class_presence(keyed_entropy(master, site, counter), cfg);
}

/// Concatenation mode gives `master ! site` with the site's case kept.
pub proof fn lemma_concatenation_literal(
    master: Seq<char>,
    site: Seq<char>,
    counter: u32,
    cfg: PasswordConfig,
)
    requires
        cfg.mode == GenerationMode::Concatenation,
    ensures
        password_for(master, site, counter, cfg) == master + seq!['!'] + site,
{
}

} // verus!
