//! Content-hashed compiled-artifact cache: naming and load planning.
//!
//! The cache key of a WebAssembly component is the lowercase hex SHA-256 of
//! its bytes; the compiled artifact lives in `{digest}.cwasm` inside the cache
//! directory. A warm load reads that file and writes nothing; a cold load
//! compiles, writes a same-directory temporary file `{digest}.{pid}.tmp` and
//! renames it onto `{digest}.cwasm`, so a reader never sees a partial file.
use vstd::prelude::*;
use sha2::Digest;

verus! {

/// The SHA-256 hash of `data` (32 bytes).
pub uninterp spec fn sha256_of(data: Seq<u8>) -> Seq<u8>;

/// SHA-256 of `data`.
///
/// Trusted: calls `sha2::Sha256::digest`. The contract names the result
/// (`sha256_of`) and states its documented 32-byte length; the hash function
/// itself is not stated.
#[verifier::external_body]
fn sha256(data: &[u8]) -> (hash: Vec<u8>)
    ensures
        hash@ == sha256_of(data@),
        hash@.len() == 32,
{
    sha2::Sha256::digest(data).to_vec()
}

/// Appends `c` to `s`.
///
/// Trusted: calls std's `String::push`, documented to append the given char
/// to the end of the string.
#[verifier::external_body]
fn push_char(s: &mut String, c: char)
    ensures
        final(s)@ == old(s)@.push(c),
{
    s.push(c);
}

/// The sixteen lowercase hexadecimal digits, in order.
pub open spec fn hex_digits() -> Seq<char> {
    seq!['0', '1', '2', '3', '4', '5', '6', '7', '8', '9', 'a', 'b', 'c', 'd', 'e', 'f']
}

/// The lowercase hex encoding of `bytes`: two digits per byte, high nibble first.
pub open spec fn hex_encoding(bytes: Seq<u8>) -> Seq<char>
    decreases bytes.len(),
{
    if bytes.len() == 0 {
        Seq::<char>::empty()
    } else {
        let b: u8 = bytes.last();
        hex_encoding(bytes.drop_last()) + seq![hex_digits()[(b / 16) as int], hex_digits()[(b % 16) as int]]
    }
}

/// The decimal rendering of `n`, most significant digit first, no leading zeros.
pub open spec fn decimal(n: nat) -> Seq<char>
    decreases n,
{
    if n < 10 {
        seq![hex_digits()[n as int]]
    } else {
        decimal(n / 10) + seq![hex_digits()[(n % 10) as int]]
    }
}

/// The cache key of `wasm`: lowercase hex SHA-256 of its bytes.
pub open spec fn digest_of(wasm: Seq<u8>) -> Seq<char> {
    hex_encoding(sha256_of(wasm))
}

/// `{digest}.cwasm`: the file holding the compiled artifact for `digest`.
pub open spec fn cwasm_name_of(digest: Seq<char>) -> Seq<char> {
    digest + seq!['.', 'c', 'w', 'a', 's', 'm']
}

/// `{digest}.{pid}.tmp`: the file a cold load writes before renaming it.
pub open spec fn temp_name_of(digest: Seq<char>, pid: nat) -> Seq<char> {
    digest + seq!['.'] + decimal(pid) + seq!['.', 't', 'm', 'p']
}

/// Whether `s` has the shape of a cache key: 64 lowercase hex digits.
pub open spec fn is_hex_digest_spec(s: Seq<char>) -> bool {
    &&& s.len() == 64
    &&& forall|i: int| 0 <= i < s.len() ==> hex_digits().contains(#[trigger] s[i])
}

/// The digit for `n` (below 16).
fn hex_digit(n: u8) -> (c: char)
    requires
        n < 16,
    ensures
        c == hex_digits()[n as int],
{
    let digits: [char; 16] = ['0', '1', '2', '3', '4', '5', '6', '7', '8', '9', 'a', 'b', 'c', 'd', 'e', 'f'];
    assert(digits@ =~= hex_digits());
    digits[n as usize]
}

/// Lowercase hex encoding of `bytes`, e.g. `[0xbe, 0xef]` gives `"beef"`.
pub fn encode_hex(bytes: &[u8]) -> (hex: String)
    ensures
        hex@ == hex_encoding(bytes@),
{
    let mut hex = String::new();
    let n: usize = bytes.len();
    let mut i: usize = 0;
    while i < n
        invariant
            n == bytes@.len(),
            i <= n,
            hex@ == hex_encoding(bytes@.take(i as int)),
        decreases n - i,
    {
        let b: u8 = bytes[i];
        push_char(&mut hex, hex_digit(b / 16));
        push_char(&mut hex, hex_digit(b % 16));
        assert(bytes@.take(i + 1).drop_last() =~= bytes@.take(i as int));
        assert(hex@ =~= hex_encoding(bytes@.take(i + 1)));
        i = i + 1;
    }
    assert(bytes@.take(n as int) =~= bytes@);
    hex
}

/// Whether `c` is a lowercase hex digit.
fn is_hex_digit(c: char) -> (digit: bool)
    ensures
        digit == hex_digits().contains(c),
{
    let mut j: u8 = 0;
    while j < 16
        invariant
            j <= 16,
            forall|k: int| 0 <= k < j ==> hex_digits()[k] != c,
        decreases 16 - j,
    {
        if hex_digit(j) == c {
            return true;
        }
        j = j + 1;
    }
    proof {
        if hex_digits().contains(c) {
            let k = choose|k: int| 0 <= k < hex_digits().len() && hex_digits()[k] == c;
            assert(hex_digits()[k] == c);
        }
    }
    false
}

/// Whether `s` has the shape of a cache key (64 lowercase hex digits), so it
/// can safely name a file in the cache directory.
pub fn is_hex_digest(s: &str) -> (well_formed: bool)
    ensures
        well_formed == is_hex_digest_spec(s@),
{
    let n: usize = s.unicode_len();
    if n != 64 {
        return false;
    }
    let mut i: usize = 0;
    while i < n
        invariant
            n == s@.len(),
            i <= n,
            forall|j: int| 0 <= j < i ==> hex_digits().contains(#[trigger] s@[j]),
        decreases n - i,
    {
        if !is_hex_digit(s.get_char(i)) {
            return false;
        }
        i = i + 1;
    }
    true
}

/// Appends the decimal rendering of `n` to `out`.
fn push_decimal(out: &mut String, n: u32)
    ensures
        final(out)@ == old(out)@ + decimal(n as nat),
    decreases n,
{
    if n >= 10 {
        push_decimal(out, n / 10);
    }
    push_char(out, hex_digit((n % 10) as u8));
    assert(final(out)@ =~= old(out)@ + decimal(n as nat));
}

/// Hex-encoded SHA-256 of `bytes`: the cache key and `.cwasm` file stem.
pub fn digest(bytes: &[u8]) -> (key: String)
    ensures
        key@ == digest_of(bytes@),
        key@.len() == 64,
        is_hex_digest_spec(key@),
{
    let hash = sha256(bytes);
    let key = encode_hex(hash.as_slice());
    proof {
        law_hex_digest_shape(hash@);
    }
    key
}

/// `{digest}.cwasm`, the cache file name for `digest`.
pub fn cwasm_file_name(digest: &str) -> (name: String)
    ensures
        name@ == cwasm_name_of(digest@),
{
    let mut name = String::from_str(digest);
    name.append(".cwasm");
    proof {
        reveal_strlit(".cwasm");
    }
    assert(name@ =~= cwasm_name_of(digest@));
    name
}

/// `{digest}.{pid}.tmp`, the temporary file a cold load of process `pid` writes.
pub fn temp_file_name(digest: &str, pid: u32) -> (name: String)
    ensures
        name@ == temp_name_of(digest@, pid as nat),
{
    let mut name = String::from_str(digest);
    push_char(&mut name, '.');
    push_decimal(&mut name, pid);
    name.append(".tmp");
    proof {
        reveal_strlit(".tmp");
    }
    assert(name@ =~= temp_name_of(digest@, pid as nat));
    name
}

/// How to obtain the compiled artifact for one digest.
#[derive(Debug)]
pub enum CachePlan {
    /// Deserialize the existing `cached` file; nothing is written.
    Warm { cached: String },
    /// Compile, write the artifact to `temp`, then rename `temp` onto `cached`.
    Cold { temp: String, cached: String },
}

/// A plan, by view: `Ok(cached)` for a warm load, `Err((temp, cached))` for a cold one.
pub open spec fn plan_view(plan: CachePlan) -> Result<Seq<char>, (Seq<char>, Seq<char>)> {
    match plan {
        CachePlan::Warm { cached } => Ok(cached@),
        CachePlan::Cold { temp, cached } => Err((temp@, cached@)),
    }
}

/// The plan for `digest` given whether its `.cwasm` file exists.
pub open spec fn plan_spec(digest: Seq<char>, cached_exists: bool, pid: nat) -> Result<Seq<char>, (Seq<char>, Seq<char>)> {
    if cached_exists {
        Ok(cwasm_name_of(digest))
    } else {
        Err((temp_name_of(digest, pid), cwasm_name_of(digest)))
    }
}

/// Decide between the warm path (the `.cwasm` for `digest` exists: load it)
/// and the cold path (compile, write a temporary file, rename it into place).
pub fn plan_load(digest: &str, cached_exists: bool, pid: u32) -> (plan: CachePlan)
    ensures
        plan_view(plan) == plan_spec(digest@, cached_exists, pid as nat),
{
    let cached = cwasm_file_name(digest);
    if cached_exists {
        CachePlan::Warm { cached }
    } else {
        CachePlan::Cold { temp: temp_file_name(digest, pid), cached }
    }
}

/// Hex encoding doubles the length.
pub proof fn lemma_hex_encoding_len(bytes: Seq<u8>)
    ensures
        hex_encoding(bytes).len() == 2 * bytes.len(),
    decreases bytes.len(),
{
    if bytes.len() > 0 {
        lemma_hex_encoding_len(bytes.drop_last());
    }
}

/// Every character of a hex encoding is a lowercase hex digit.
pub proof fn lemma_hex_encoding_alphabet(bytes: Seq<u8>)
    ensures
        forall|i: int| 0 <= i < hex_encoding(bytes).len() ==> hex_digits().contains(#[trigger] hex_encoding(bytes)[i]),
    decreases bytes.len(),
{
    if bytes.len() > 0 {
        let prefix = bytes.drop_last();
        lemma_hex_encoding_alphabet(prefix);
        lemma_hex_encoding_len(prefix);
        let b: u8 = bytes.last();
        let e = hex_encoding(bytes);
        assert forall|i: int| 0 <= i < e.len() implies hex_digits().contains(#[trigger] e[i]) by {
            if i < hex_encoding(prefix).len() {
                assert(e[i] == hex_encoding(prefix)[i]);
            } else if i == hex_encoding(prefix).len() {
                assert(e[i] == hex_digits()[(b / 16) as int]);
                assert(hex_digits()[(b / 16) as int] == e[i]);
            } else {
                assert(e[i] == hex_digits()[(b % 16) as int]);
                assert(hex_digits()[(b % 16) as int] == e[i]);
            }
        }
    }
}

/// Distinct hex digits stand for distinct values.
proof fn lemma_hex_digit_injective(x: int, y: int)
    requires
        0 <= x < 16,
        0 <= y < 16,
        hex_digits()[x] == hex_digits()[y],
    ensures
        x == y,
{
}

/// Hex encoding is injective: different byte strings get different encodings.
pub proof fn lemma_hex_encoding_injective(a: Seq<u8>, b: Seq<u8>)
    requires
        hex_encoding(a) == hex_encoding(b),
    ensures
        a == b,
    decreases a.len(),
{
    lemma_hex_encoding_len(a);
    lemma_hex_encoding_len(b);
    if a.len() > 0 {
        let ea = hex_encoding(a.drop_last());
        let eb = hex_encoding(b.drop_last());
        lemma_hex_encoding_len(a.drop_last());
        lemma_hex_encoding_len(b.drop_last());
        let e = hex_encoding(a);
        assert(ea =~= e.subrange(0, e.len() - 2));
        assert(eb =~= e.subrange(0, e.len() - 2));
        lemma_hex_encoding_injective(a.drop_last(), b.drop_last());
        let x: u8 = a.last();
        let y: u8 = b.last();
        assert(e[e.len() - 2] == hex_digits()[(x / 16) as int]);
        assert(e[e.len() - 2] == hex_digits()[(y / 16) as int]);
        assert(e[e.len() - 1] == hex_digits()[(x % 16) as int]);
        assert(e[e.len() - 1] == hex_digits()[(y % 16) as int]);
        lemma_hex_digit_injective((x / 16) as int, (y / 16) as int);
        lemma_hex_digit_injective((x % 16) as int, (y % 16) as int);
        assert(x == y);
        assert(a =~= a.drop_last().push(x));
        assert(b =~= b.drop_last().push(y));
    }
}

/// Every character of `decimal(n)` is a decimal digit.
proof fn lemma_decimal_alphabet(n: nat)
    ensures
        forall|i: int| 0 <= i < decimal(n).len() ==> hex_digits().contains(#[trigger] decimal(n)[i]),
    decreases n,
{
    if n >= 10 {
        lemma_decimal_alphabet(n / 10);
        let d = decimal(n);
        assert forall|i: int| 0 <= i < d.len() implies hex_digits().contains(#[trigger] d[i]) by {
            if i < decimal(n / 10).len() {
                assert(d[i] == decimal(n / 10)[i]);
            } else {
                assert(hex_digits()[(n % 10) as int] == d[i]);
            }
        }
    } else {
        assert(hex_digits()[n as int] == decimal(n)[0]);
    }
}

/// Cache keys are tamper-evident names: the key of any component is made of
/// lowercase hex digits only, and two different hashes never share a cache
/// file, while the same bytes always map to the same file.
pub proof fn law_cache_key_names(wasm: Seq<u8>, other: Seq<u8>)
    ensures
        forall|i: int| 0 <= i < digest_of(wasm).len() ==> hex_digits().contains(#[trigger] digest_of(wasm)[i]),
        sha256_of(wasm) != sha256_of(other) ==> cwasm_name_of(digest_of(wasm)) != cwasm_name_of(digest_of(other)),
        wasm == other ==> cwasm_name_of(digest_of(wasm)) == cwasm_name_of(digest_of(other)),
{
    lemma_hex_encoding_alphabet(sha256_of(wasm));
    if sha256_of(wasm) != sha256_of(other) && cwasm_name_of(digest_of(wasm)) == cwasm_name_of(digest_of(other)) {
        let n1 = cwasm_name_of(digest_of(wasm));
        let n2 = cwasm_name_of(digest_of(other));
        assert(digest_of(wasm) =~= n1.subrange(0, n1.len() - 6));
        assert(digest_of(other) =~= n2.subrange(0, n2.len() - 6));
        lemma_hex_encoding_injective(sha256_of(wasm), sha256_of(other));
    }
}

/// The load plan: when the `.cwasm` file exists the load is warm and writes
/// nothing; otherwise the artifact is written to a temporary file whose name
/// differs from every `.cwasm` name (so no reader can mistake it for a
/// finished artifact) and then renamed onto `{digest}.cwasm`. For a hex
/// digest both names are plain file names in the cache directory.
pub proof fn law_cache_plan(digest: Seq<char>, cached_exists: bool, pid: nat, any_digest: Seq<char>)
    ensures
        cached_exists ==> plan_spec(digest, cached_exists, pid) == Ok::<Seq<char>, (Seq<char>, Seq<char>)>(cwasm_name_of(digest)),
        !cached_exists ==> plan_spec(digest, cached_exists, pid) == Err::<Seq<char>, (Seq<char>, Seq<char>)>((temp_name_of(digest, pid), cwasm_name_of(digest))),
        temp_name_of(digest, pid) != cwasm_name_of(any_digest),
        (forall|i: int| 0 <= i < digest.len() ==> hex_digits().contains(#[trigger] digest[i])) ==> (
            crate::types::has_no_slash(temp_name_of(digest, pid))
            && crate::types::has_no_slash(cwasm_name_of(digest))),
{
    let t = temp_name_of(digest, pid);
    let c = cwasm_name_of(any_digest);
    assert(t[t.len() - 1] == 'p');
    assert(c[c.len() - 1] == 'm');
    if forall|i: int| 0 <= i < digest.len() ==> hex_digits().contains(#[trigger] digest[i]) {
        lemma_decimal_alphabet(pid);
        let d = decimal(pid);
        assert forall|i: int| 0 <= i < t.len() implies #[trigger] t[i] != '/' by {
            if i < digest.len() {
                assert(t[i] == digest[i]);
                assert(hex_digits().contains(digest[i]));
            } else if i == digest.len() {
            } else if i < digest.len() + 1 + d.len() {
                assert(t[i] == d[i - digest.len() - 1]);
                assert(hex_digits().contains(d[i - digest.len() - 1]));
            }
        }
        let cd = cwasm_name_of(digest);
        assert forall|i: int| 0 <= i < cd.len() implies #[trigger] cd[i] != '/' by {
            if i < digest.len() {
                assert(cd[i] == digest[i]);
                assert(hex_digits().contains(digest[i]));
            }
        }
    }
}

/// The hex encoding of a 32-byte hash has the shape of a cache key, so a
/// digest always passes `is_hex_digest`.
pub proof fn law_hex_digest_shape(hash: Seq<u8>)
    requires
        hash.len() == 32,
    ensures
        is_hex_digest_spec(hex_encoding(hash)),
{
    lemma_hex_encoding_len(hash);
    lemma_hex_encoding_alphabet(hash);
}

/// The numeric value of a decimal digit character.
pub open spec fn digit_value(c: char) -> int {
    (c as int) - ('0' as int)
}

/// The number that a string of decimal digits denotes, most significant first.
pub open spec fn digits_value(s: Seq<char>) -> int
    decreases s.len(),
{
    if s.len() == 0 {
        0
    } else {
        digits_value(s.drop_last()) * 10 + digit_value(s.last())
    }
}

/// `decimal(n)` is the base-10 rendering of `n`: a non-empty string of digits
/// `0`..`9` that reads back as `n`, with no leading zero.
pub proof fn law_decimal_reads_back(n: nat)
    ensures
        decimal(n).len() > 0,
        forall|i: int| 0 <= i < decimal(n).len() ==> 0 <= #[trigger] digit_value(decimal(n)[i]) < 10,
        digits_value(decimal(n)) == n,
        decimal(n)[0] == '0' ==> n == 0,
    decreases n,
{
    if n < 10 {
        assert(decimal(n).drop_last() =~= Seq::<char>::empty());
        assert(digit_value(hex_digits()[n as int]) == n);
        assert(decimal(n).last() == hex_digits()[n as int]);
        assert(digits_value(decimal(n)) == digits_value(decimal(n).drop_last()) * 10 + digit_value(decimal(n).last()));
    } else {
        law_decimal_reads_back(n / 10);
        let d = decimal(n);
        let q = decimal(n / 10);
        assert(d.drop_last() =~= q);
        assert(digit_value(hex_digits()[(n % 10) as int]) == n % 10);
        assert(d.last() == hex_digits()[(n % 10) as int]);
        assert(digits_value(d) == digits_value(q) * 10 + digit_value(d.last()));
        assert((n / 10) * 10 + n % 10 == n);
        assert forall|i: int| 0 <= i < d.len() implies 0 <= #[trigger] digit_value(d[i]) < 10 by {
            if i < q.len() {
                assert(d[i] == q[i]);
            }
        }
        assert(d[0] == q[0]);
    }
}

/// Different numbers have different decimal renderings.
pub proof fn law_decimal_injective(a: nat, b: nat)
    ensures
        decimal(a) == decimal(b) ==> a == b,
{
    law_decimal_reads_back(a);
    law_decimal_reads_back(b);
}

/// Different processes never share a temporary file for the same digest:
/// the temp name determines the process id.
pub proof fn law_temp_names_distinct_per_pid(digest: Seq<char>, p1: nat, p2: nat)
    ensures
        temp_name_of(digest, p1) == temp_name_of(digest, p2) ==> p1 == p2,
{
    let t1 = temp_name_of(digest, p1);
    let t2 = temp_name_of(digest, p2);
    if t1 == t2 {
        let d1 = decimal(p1);
        let d2 = decimal(p2);
        assert(t1.subrange(digest.len() as int + 1, t1.len() - 4) =~= d1);
        assert(t2.subrange(digest.len() as int + 1, t2.len() - 4) =~= d2);
        law_decimal_injective(p1, p2);
    }
}

} // verus!
