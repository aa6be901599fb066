use vstd::prelude::*;
use vstd::string::StringSliceAdditionalSpecFns;

verus! {

broadcast use vstd::utf8::group_utf8_lib;

/// Longest seed, in bytes, that an address may be derived with.
pub const MAX_SEED_LEN: usize = 32;

/// A ledger address or authority: 32 bytes, compared byte for byte.
#[derive(Clone, Copy, Debug, PartialEq, Eq, Hash)]
pub struct Address {
    pub bytes: [u8; 32],
}

impl Address {
    pub fn new(bytes: [u8; 32]) -> (r: Address)
        ensures
            r.bytes == bytes,
    {
        Address { bytes }
    }

    pub fn to_bytes(&self) -> (r: [u8; 32])
        ensures
            r == self.bytes,
    {
        self.bytes
    }
}

#[derive(Clone, Copy, Debug, PartialEq, Eq)]
pub enum PubkeyError {
    MaxSeedLengthExceeded,
}

/// The SHA-256 digest of a byte string.
pub uninterp spec fn sha256(data: Seq<u8>) -> Seq<u8>;

/// Relies on solana_sdk::hash::hashv: the SHA-256 digest of the three slices
/// hashed one after the other, that is of their concatenation.
#[verifier::external_body]
fn hash_three(a: &[u8], b: &[u8], c: &[u8]) -> (r: [u8; 32])
    ensures
        r@ == sha256(a@ + b@ + c@),
{
    solana_sdk::hash::hashv(&[a, b, c]).to_bytes()
}

/// The address derived from `base`, a seed given by its bytes, and an owning program.
pub open spec fn address_with_seed(base: Seq<u8>, seed: Seq<u8>, program_id: Seq<u8>) -> Seq<u8> {
    sha256(base + seed + program_id)
}

/// The decimal digit for `d < 10`.
pub open spec fn digit_char(d: nat) -> char {
    ((d + 48) as u8) as char
}

/// The decimal representation of `n`, most significant digit first, without
/// leading zeros ("0" for zero).
pub open spec fn decimal(n: nat) -> Seq<char>
    decreases n,
{
    if n < 10 {
        seq![digit_char(n)]
    } else {
        decimal(n / 10).push(digit_char(n % 10))
    }
}

/// The seed bytes of the account at index `i`: its decimal representation.
pub open spec fn seed_of_index(i: nat) -> Seq<u8> {
    vstd::utf8::encode_utf8(decimal(i))
}

/// The address of the derived account at index `i`.
pub open spec fn derived_address(base: Seq<u8>, i: nat, program_id: Seq<u8>) -> Seq<u8> {
    address_with_seed(base, seed_of_index(i), program_id)
}

proof fn lemma_decimal_ascii(n: nat)
    ensures
        vstd::utf8::is_ascii_chars(decimal(n)),
        1 <= decimal(n).len(),
        n < 10 ==> decimal(n).len() == 1,
        n >= 10 ==> decimal(n).len() == decimal(n / 10).len() + 1,
    decreases n,
{
    if n >= 10 {
        lemma_decimal_ascii(n / 10);
    }
}

/// No two indices have the same decimal representation.
pub proof fn lemma_decimal_injective(a: nat, b: nat)
    requires
        decimal(a) == decimal(b),
    ensures
        a == b,
    decreases a + b,
{
    lemma_decimal_ascii(a);
    lemma_decimal_ascii(b);
    let da = decimal(a);
    let db = decimal(b);
    if a < 10 && b < 10 {
        assert(da[0] == digit_char(a));
        assert(db[0] == digit_char(b));
    } else if a < 10 {
        assert(db.len() >= 2) by {
            lemma_decimal_ascii(b / 10);
        }
    } else if b < 10 {
        assert(da.len() >= 2) by {
            lemma_decimal_ascii(a / 10);
        }
    } else {
        assert(da.last() == digit_char(a % 10));
        assert(db.last() == digit_char(b % 10));
        assert(da.drop_last() == decimal(a / 10));
        assert(db.drop_last() == decimal(b / 10));
        lemma_decimal_injective(a / 10, b / 10);
    }
}

/// The decimal representation of `n < 10^k` has at most `k` digits.
proof fn lemma_decimal_len_bound(n: nat, k: nat, p: nat)
    requires
        n < p,
        p == pow10(k),
        k >= 1,
    ensures
        decimal(n).len() <= k,
    decreases k,
{
    lemma_decimal_ascii(n);
    if n >= 10 {
        assert(k >= 2) by {
            if k == 1 {
                assert(pow10(1) == 10 * pow10(0));
            }
        }
        let q = pow10((k - 1) as nat);
        assert(p == 10 * q);
        assert(n / 10 < q) by (nonlinear_arith)
            requires
                n < 10 * q,
        ;
        lemma_decimal_len_bound(n / 10, (k - 1) as nat, q);
    }
}

pub open spec fn pow10(k: nat) -> nat
    decreases k,
{
    if k == 0 {
        1
    } else {
        10 * pow10((k - 1) as nat)
    }
}

/// Every index that fits in a `usize` has a seed of at most 20 bytes.
proof fn lemma_index_seed_fits(i: usize)
    ensures
        seed_of_index(i as nat).len() == decimal(i as nat).len(),
        seed_of_index(i as nat).len() <= 20,
{
    lemma_decimal_ascii(i as nat);
    vstd::utf8::is_ascii_chars_encode_utf8(decimal(i as nat));
    reveal_with_fuel(pow10, 21);
    assert(pow10(20) == 100000000000000000000nat);
    lemma_decimal_len_bound(i as nat, 20, pow10(20));
}

fn digit_str(d: usize) -> (r: &'static str)
    requires
        d < 10,
    ensures
        r@ == seq![digit_char(d as nat)],
{
    proof {
        reveal_strlit("0");
        reveal_strlit("1");
        reveal_strlit("2");
        reveal_strlit("3");
        reveal_strlit("4");
        reveal_strlit("5");
        reveal_strlit("6");
        reveal_strlit("7");
        reveal_strlit("8");
        reveal_strlit("9");
    }
    if d == 0 {
        "0"
    } else if d == 1 {
        "1"
    } else if d == 2 {
        "2"
    } else if d == 3 {
        "3"
    } else if d == 4 {
        "4"
    } else if d == 5 {
        "5"
    } else if d == 6 {
        "6"
    } else if d == 7 {
        "7"
    } else if d == 8 {
        "8"
    } else {
        "9"
    }
}

/// The seed of the account at index `i`: `i` written in decimal.
pub fn index_seed(i: usize) -> (r: String)
    ensures
        r@ == decimal(i as nat),
    decreases i,
{
    if i < 10 {
        String::from_str(digit_str(i))
    } else {
        let mut s = index_seed(i / 10);
        s.append(digit_str(i % 10));
        s
    }
}

/// Derives an address from `base`, `seed` and `program_id`. Fails exactly when
/// the seed is longer than `MAX_SEED_LEN` bytes.
pub fn create_with_seed(base: &Address, seed: &str, program_id: &Address) -> (r: Result<
    Address,
    PubkeyError,
>)
    ensures
        seed.spec_bytes().len() > MAX_SEED_LEN <==> r is Err,
        r matches Ok(a) ==> a.bytes@ == address_with_seed(
            base.bytes@,
            seed.spec_bytes(),
            program_id.bytes@,
        ),
{
    let seed_bytes = seed.as_bytes();
    if seed_bytes.len() > MAX_SEED_LEN {
        return Err(PubkeyError::MaxSeedLengthExceeded);
    }
    let bytes = hash_three(base.bytes.as_slice(), seed_bytes, program_id.bytes.as_slice());
    Ok(Address { bytes })
}

/// The address of the derived account at index `i` under `base`.
pub fn derive_stake_account_address(base: &Address, i: usize, program_id: &Address) -> (r:
    Address)
    ensures
        r.bytes@ == derived_address(base.bytes@, i as nat, program_id.bytes@),
{
    let seed = index_seed(i);
    proof {
        lemma_index_seed_fits(i);
    }
    match create_with_seed(base, seed.as_str(), program_id) {
        Ok(a) => a,
        Err(_) => {
            proof {
                assert(false);
            }
            Address { bytes: [0u8; 32] }
        },
    }
}

/// The addresses of the derived accounts at indices `0..num_accounts`, in order.
pub fn derive_stake_account_addresses(base: &Address, num_accounts: usize, program_id: &Address)
    -> (r: Vec<Address>)
    ensures
        r@.len() == num_accounts,
        forall|i: int|
            0 <= i < num_accounts ==> #[trigger] r@[i].bytes@ == derived_address(
                base.bytes@,
                i as nat,
                program_id.bytes@,
            ),
{
    let mut r: Vec<Address> = Vec::new();
    for i in 0..num_accounts
        invariant
            r@.len() == i,
            forall|j: int|
                0 <= j < i ==> #[trigger] r@[j].bytes@ == derived_address(
                    base.bytes@,
                    j as nat,
                    program_id.bytes@,
                ),
    {
        r.push(derive_stake_account_address(base, i, program_id));
    }
    r
}

/// Derivation is a function of base, index and program: two addresses derived
/// from the same three are the same address.
pub proof fn lemma_derivation_deterministic(
    base: Address,
    i: nat,
    program_id: Address,
    a: Address,
    b: Address,
)
    requires
        a.bytes@ == derived_address(base.bytes@, i, program_id.bytes@),
        b.bytes@ == derived_address(base.bytes@, i, program_id.bytes@),
    ensures
        a == b,
{
    assert(a.bytes =~= b.bytes) by {
        assert forall|k: int| 0 <= k < 32 implies a.bytes[k] == b.bytes[k] by {
            assert(a.bytes@[k] == b.bytes@[k]);
        }
    }
}

/// Distinct indices give distinct seeds, so for one base and program the bytes
/// hashed for two distinct indices differ. (That the digests then differ is
/// what SHA-256's collision resistance adds.)
pub proof fn lemma_distinct_indices_distinct_preimages(
    base: Seq<u8>,
    program_id: Seq<u8>,
    i: nat,
    j: nat,
)
    requires
        i != j,
    ensures
        seed_of_index(i) != seed_of_index(j),
        base + seed_of_index(i) + program_id != base + seed_of_index(j) + program_id,
{
    let si = seed_of_index(i);
    let sj = seed_of_index(j);
    if si == sj {
        assert(vstd::utf8::decode_utf8(si) == decimal(i));
        assert(vstd::utf8::decode_utf8(sj) == decimal(j));
        lemma_decimal_injective(i, j);
    }
    let x = base + si + program_id;
    let y = base + sj + program_id;
    if x == y {
        assert(x.len() == y.len());
        assert(si.len() == sj.len());
        assert(si =~= x.subrange(base.len() as int, (base.len() + si.len()) as int));
        assert(sj =~= y.subrange(base.len() as int, (base.len() + sj.len()) as int));
    }
}

} // verus!
