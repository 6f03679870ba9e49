//! Encodings and lookups shared by the pipeline: transaction hashes, bech32
//! addresses, the validator search and the checksum table.

use crate::chain::{same_address, TmValidatorInfo};
use crate::error::Error;
use vstd::hash_map::StringHashMap;
use vstd::prelude::*;

verus! {

/// Human-readable part of an account address.
pub const ADDRESS_HRP: &'static str = "tnam";

/// Human-readable part of a public key.
pub const COMMON_PK_HRP: &'static str = "tpknam";

/// The digit that stands for `nibble` (0 to 15) in hexadecimal text.
pub open spec fn hex_digit(nibble: int, upper: bool) -> char {
    if nibble < 10 {
        (48 + nibble) as u8 as char
    } else if upper {
        (55 + nibble) as u8 as char
    } else {
        (87 + nibble) as u8 as char
    }
}

/// Hexadecimal text of `bytes`: two digits per byte, high nibble first.
pub open spec fn hex_encoding(bytes: Seq<u8>, upper: bool) -> Seq<char> {
    Seq::new(
        2 * bytes.len(),
        |i: int|
            hex_digit(
                if i % 2 == 0 {
                    bytes[i / 2] as int / 16
                } else {
                    bytes[i / 2] as int % 16
                },
                upper,
            ),
    )
}

/// The SHA-256 digest of a byte string.
pub uninterp spec fn sha256_digest(data: Seq<u8>) -> Seq<u8>;

/// The bech32 text of `data` under the human-readable part `hrp`.
pub uninterp spec fn bech32_encoding(hrp: Seq<char>, data: Seq<u8>) -> Seq<char>;

/// `subtle_encoding::hex::encode`: lower-case hexadecimal, two digits per
/// byte, high nibble first. The contract states the encoding in full and is
/// trusted, not proved. The length is bounded because the encoder doubles it.
#[verifier::external_body]
fn hex_lower(bytes: &[u8]) -> (text: String)
    requires
        2 * bytes@.len() <= usize::MAX,
    ensures
        text@ == hex_encoding(bytes@, false),
{
    String::from_utf8(subtle_encoding::hex::encode(bytes)).expect("invalid hex")
}

/// `subtle_encoding::hex::encode_upper`: upper-case hexadecimal, two digits
/// per byte, high nibble first. The contract states the encoding in full and
/// is trusted, not proved. The length is bounded because the encoder doubles
/// it.
#[verifier::external_body]
fn hex_upper(bytes: &[u8]) -> (text: String)
    requires
        2 * bytes@.len() <= usize::MAX,
    ensures
        text@ == hex_encoding(bytes@, true),
{
    String::from_utf8(subtle_encoding::hex::encode_upper(bytes)).expect("Invalid UTF-8 sequence")
}

/// `sha2::Sha256::digest`: the contract names the digest and claims its
/// length of 32 bytes, the output size of SHA-256. Trusted, not proved.
#[verifier::external_body]
fn sha256(data: &[u8]) -> (digest: Vec<u8>)
    ensures
        digest@ == sha256_digest(data@),
        digest@.len() == 32,
{
    <sha2::Sha256 as sha2::Digest>::digest(data).to_vec()
}

/// `subtle_encoding::bech32::encode`: the contract names the lower-case
/// bech32 text of the data under the given human-readable part. Trusted, not
/// proved. The sizes are bounded because the encoder adds them up, the
/// human-readable part in bytes, to reserve room for the text.
#[verifier::external_body]
fn bech32_encode(hrp: &str, data: &[u8]) -> (text: String)
    requires
        4 * hrp@.len() + 2 * data@.len() + 7 <= usize::MAX,
    ensures
        text@ == bech32_encoding(hrp@, data@),
{
    subtle_encoding::bech32::encode(hrp, data)
}

/// Lower-case hexadecimal text of a code hash, the form under which the
/// checksum table is keyed.
pub fn code_hex(code: &[u8; 32]) -> (text: String)
    ensures
        text@ == hex_encoding(code@, false),
        text@.len() == 64,
{
    hex_lower(code.as_slice())
}

/// The hash under which a raw transaction is stored: the upper-case
/// hexadecimal text of its SHA-256 digest.
pub fn tx_hash(raw_tx: Vec<u8>) -> (hash: String)
    ensures
        hash@ == hex_encoding(sha256_digest(raw_tx@), true),
        hash@.len() == 64,
{
    let digest = sha256(raw_tx.as_slice());
    hex_upper(digest.as_slice())
}

/// The bech32 text of an account address.
pub fn addr_to_bech32(addr: &[u8; 20]) -> (text: String)
    ensures
        text@ == bech32_encoding(ADDRESS_HRP@, addr@),
{
    proof {
        reveal_strlit("tnam");
    }
    bech32_encode(ADDRESS_HRP, addr.as_slice())
}

/// Whether position `i` holds the first validator with the given address.
pub open spec fn is_first_match(validators: Seq<TmValidatorInfo>, address: Seq<u8>, i: int) -> bool {
    &&& 0 <= i < validators.len()
    &&& validators[i].address@ == address
    &&& forall|j: int| 0 <= j < i ==> validators[j].address@ != address
}

/// Position of the first validator of the set that has the given address.
pub fn validator_index(validators: &Vec<TmValidatorInfo>, address: &[u8; 20]) -> (found: Option<
    usize,
>)
    ensures
        match found {
            Some(i) => is_first_match(validators@, address@, i as int),
            None => forall|i: int|
                0 <= i < validators@.len() ==> validators@[i].address@ != address@,
        },
{
    let mut i: usize = 0;
    while i < validators.len()
        invariant
            i <= validators.len(),
            forall|j: int| 0 <= j < i ==> validators@[j].address@ != address@,
        decreases validators.len() - i,
    {
        if same_address(&validators[i].address, address) {
            return Some(i);
        }
        i += 1;
    }
    None
}

/// The first validator of the set that has the given address.
pub fn find_validator(validators: Vec<TmValidatorInfo>, address: &[u8; 20]) -> (found: Option<
    TmValidatorInfo,
>)
    ensures
        match found {
            Some(v) => exists|i: int|
                #[trigger] is_first_match(validators@, address@, i) && v == validators@[i],
            None => forall|i: int|
                0 <= i < validators@.len() ==> validators@[i].address@ != address@,
        },
{
    let mut pool = validators;
    match validator_index(&pool, address) {
        Some(i) => Some(pool.remove(i)),
        None => None,
    }
}

/// Index of the first `.` of `s` at or after `from`; the length of `s` when
/// there is none.
pub open spec fn find_dot(s: Seq<char>, from: int) -> int
    decreases s.len() - from,
{
    if from >= s.len() {
        s.len() as int
    } else if s[from] == '.' {
        from
    } else {
        find_dot(s, from + 1)
    }
}

/// The kind a checksum entry's key names: the text before its first `.`.
pub open spec fn entry_kind(key: Seq<char>) -> Seq<char> {
    key.subrange(0, find_dot(key, 0))
}

/// The code hash a checksum entry's value names: the text between its first
/// `.` and the next one (or the end). `None` when the value holds no `.`.
pub open spec fn entry_hash(value: Seq<char>) -> Option<Seq<char>> {
    let dot = find_dot(value, 0);
    if dot < value.len() {
        Some(value.subrange(dot + 1, find_dot(value, dot + 1)))
    } else {
        None
    }
}

/// Members of a JSON object as plain text: each key with its value where
/// that value is a string.
pub open spec fn members_view(members: Seq<(String, Option<String>)>) -> Seq<
    (Seq<char>, Option<Seq<char>>),
> {
    Seq::new(
        members.len(),
        |i: int|
            (
                members[i].0@,
                match members[i].1 {
                    Some(v) => Some(v@),
                    None => None,
                },
            ),
    )
}

/// The checksum table that a list of members describes, later members
/// overriding earlier ones; `None` when some member is not of the form
/// `kind.suffix => "kind.hash"`.
pub open spec fn checksums_of(members: Seq<(Seq<char>, Option<Seq<char>>)>) -> Option<
    Map<Seq<char>, Seq<char>>,
>
    decreases members.len(),
{
    if members.len() == 0 {
        Some(Map::empty())
    } else {
        let last = members.last();
        match (checksums_of(members.drop_last()), last.1) {
            (Some(table), Some(value)) => match entry_hash(value) {
                Some(hash) => Some(table.insert(hash, entry_kind(last.0))),
                None => None,
            },
            _ => None,
        }
    }
}

/// What a text holds when read as JSON: `None` when it is not JSON at all,
/// `Some(None)` when it is JSON but no object, else the object's members,
/// each key with its value where that value is a string.
pub uninterp spec fn json_object_members(text: Seq<char>) -> Option<
    Option<Seq<(Seq<char>, Option<Seq<char>>)>>,
>;

/// `serde_json::from_str` into a `serde_json::Value`, then the members of the
/// object it holds. The contract names what the parser makes of the text and
/// is trusted, not proved; a parse error is handed on as its message.
#[verifier::external_body]
fn json_members(text: &str) -> (parsed: Result<Option<Vec<(String, Option<String>)>>, String>)
    ensures
        match parsed {
            Ok(Some(members)) => json_object_members(text@) == Some(Some(members_view(members@))),
            Ok(None) => json_object_members(text@) == Some(
                None::<Seq<(Seq<char>, Option<Seq<char>>)>>,
            ),
            Err(_) => json_object_members(text@) is None,
        },
{
    match serde_json::from_str::<serde_json::Value>(text) {
        Err(e) => Err(e.to_string()),
        Ok(serde_json::Value::Object(map)) => Ok(Some(map.into_iter().map(|(k, v)| (k, match v {
            serde_json::Value::String(s) => Some(s),
            _ => None,
        })).collect())),
        Ok(_) => Ok(None),
    }
}

/// Keys and values as plain text.
pub open spec fn pairs_view(pairs: Seq<(String, String)>) -> Seq<(Seq<char>, Seq<char>)> {
    Seq::new(pairs.len(), |i: int| (pairs[i].0@, pairs[i].1@))
}

/// Whether text `a` stands before text `b` in the order of texts: at the
/// first place where they differ `a` holds the smaller character, or `a`
/// ends there and `b` goes on.
pub open spec fn text_before(a: Seq<char>, b: Seq<char>) -> bool
    decreases a.len(),
{
    if b.len() == 0 {
        false
    } else if a.len() == 0 {
        true
    } else if a[0] != b[0] {
        a[0] < b[0]
    } else {
        text_before(a.drop_first(), b.drop_first())
    }
}

/// Whether the keys of a list of pairs stand in ascending order, each once:
/// what a sorted map hands out.
pub open spec fn ascending_keys(pairs: Seq<(String, String)>) -> bool {
    forall|i: int, j: int|
        0 <= i < j < pairs.len() ==> text_before((#[trigger] pairs[i]).0@, (#[trigger] pairs[j]).0@)
}

/// The order of texts is transitive.
proof fn lemma_text_before_transitive(a: Seq<char>, b: Seq<char>, c: Seq<char>)
    requires
        text_before(a, b),
        text_before(b, c),
    ensures
        text_before(a, c),
    decreases a.len(),
{
    if a.len() > 0 && a[0] == b[0] && b[0] == c[0] {
        lemma_text_before_transitive(a.drop_first(), b.drop_first(), c.drop_first());
    }
}

/// Whether text `a` stands before text `b` in the order of texts.
pub fn text_is_before(a: &str, b: &str) -> (r: bool)
    ensures
        r == text_before(a@, b@),
{
    let n = a.unicode_len();
    let m = b.unicode_len();
    let mut i: usize = 0;
    proof {
        assert(a@.subrange(0, n as int) =~= a@);
        assert(b@.subrange(0, m as int) =~= b@);
    }
    while i < n && i < m
        invariant
            i <= n,
            i <= m,
            n == a@.len(),
            m == b@.len(),
            text_before(a@, b@) == text_before(
                a@.subrange(i as int, n as int),
                b@.subrange(i as int, m as int),
            ),
        decreases n - i,
    {
        let ghost ra = a@.subrange(i as int, n as int);
        let ghost rb = b@.subrange(i as int, m as int);
        proof {
            assert(ra.drop_first() =~= a@.subrange(i + 1, n as int));
            assert(rb.drop_first() =~= b@.subrange(i + 1, m as int));
            assert(ra[0] == a@[i as int]);
            assert(rb[0] == b@[i as int]);
        }
        let ca = a.get_char(i);
        let cb = b.get_char(i);
        if ca != cb {
            return ca < cb;
        }
        i += 1;
    }
    i < m
}

/// Whether the keys of a list of pairs stand in ascending order, each once.
pub fn has_ascending_keys(pairs: &Vec<(String, String)>) -> (r: bool)
    ensures
        r == ascending_keys(pairs@),
{
    let mut k: usize = 1;
    while k < pairs.len()
        invariant
            1 <= k,
            forall|i: int, j: int|
                0 <= i < j < k && j < pairs@.len() ==> text_before(
                    (#[trigger] pairs@[i]).0@,
                    (#[trigger] pairs@[j]).0@,
                ),
        decreases pairs.len() - k,
    {
        if !text_is_before(pairs[k - 1].0.as_str(), pairs[k].0.as_str()) {
            return false;
        }
        proof {
            assert forall|i: int, j: int| 0 <= i < j < k + 1 && j < pairs@.len() implies text_before(
                (#[trigger] pairs@[i]).0@,
                (#[trigger] pairs@[j]).0@,
            ) by {
                if j == k && i < k - 1 {
                    lemma_text_before_transitive(
                        pairs@[i].0@,
                        pairs@[k - 1].0@,
                        pairs@[k as int].0@,
                    );
                }
            }
        }
        k += 1;
    }
    true
}

/// The JSON text of the object whose members are the given keys with their
/// texts, in the given order.
pub uninterp spec fn json_object_text(pairs: Seq<(Seq<char>, Seq<char>)>) -> Seq<char>;

/// `serde_json::to_string` of a map from text to text. The pairs come with
/// ascending keys, each once, so that gathering them into the map neither
/// reorders nor drops any. The contract names the text that the serializer
/// writes for the map and is trusted, not proved.
#[verifier::external_body]
pub(crate) fn json_object(pairs: &Vec<(String, String)>) -> (text: String)
    requires
        ascending_keys(pairs@),
    ensures
        text@ == json_object_text(pairs_view(pairs@)),
{
    let map: std::collections::BTreeMap<&String, &String> =
        pairs.iter().map(|(k, v)| (k, v)).collect();
    serde_json::to_string(&map).unwrap_or_default()
}

/// Table from code hash (lower-case hexadecimal) to transaction kind.
pub struct ChecksumMap {
    map: StringHashMap<String>,
}

impl View for ChecksumMap {
    type V = Map<Seq<char>, Seq<char>>;

    closed spec fn view(&self) -> Map<Seq<char>, Seq<char>> {
        Map::new(|k: Seq<char>| self.map@.contains_key(k), |k: Seq<char>| self.map@[k]@)
    }
}

/// The kind a table gives for a code hash: the entry, or `unknown`.
pub open spec fn kind_in(table: Map<Seq<char>, Seq<char>>, code_hex: Seq<char>) -> Seq<char> {
    if table.contains_key(code_hex) {
        table[code_hex]
    } else {
        "unknown"@
    }
}

impl ChecksumMap {
    /// The empty table.
    pub fn new() -> (table: Self)
        ensures
            table@ == Map::<Seq<char>, Seq<char>>::empty(),
    {
        let table = ChecksumMap { map: StringHashMap::new() };
        assert(table@ =~= Map::<Seq<char>, Seq<char>>::empty());
        table
    }

    /// Binds `hash` to `kind`, replacing what it was bound to.
    pub fn insert(&mut self, hash: String, kind: String)
        ensures
            final(self)@ == old(self)@.insert(hash@, kind@),
    {
        self.map.insert(hash, kind);
        assert(self@ =~= old(self)@.insert(hash@, kind@));
    }

    /// The kind bound to `hash`, if any.
    pub fn get(&self, hash: &str) -> (kind: Option<String>)
        ensures
            match kind {
                Some(k) => self@.contains_key(hash@) && k@ == self@[hash@],
                None => !self@.contains_key(hash@),
            },
    {
        match self.map.get(hash) {
            Some(k) => Some(k.clone()),
            None => None,
        }
    }

    /// The kind of the code with the given hash; `unknown` when the table
    /// has no entry for it.
    pub fn kind_of(&self, code_hex: &str) -> (kind: String)
        ensures
            kind@ == kind_in(self@, code_hex@),
    {
        match self.get(code_hex) {
            Some(k) => k,
            None => String::from_str("unknown"),
        }
    }
}

/// Index of the first `.` of `s` at or after `from`.
fn find_dot_from(s: &str, from: usize) -> (i: usize)
    requires
        from <= s@.len(),
    ensures
        i == find_dot(s@, from as int),
        from <= i <= s@.len(),
{
    let n = s.unicode_len();
    let mut i = from;
    while i < n
        invariant
            from <= i <= n,
            n == s@.len(),
            find_dot(s@, from as int) == find_dot(s@, i as int),
        decreases n - i,
    {
        if s.get_char(i) == '.' {
            return i;
        }
        i += 1;
    }
    i
}

/// The kind a checksum entry's key names.
pub fn kind_of_key(key: &str) -> (kind: String)
    ensures
        kind@ == entry_kind(key@),
{
    let end = find_dot_from(key, 0);
    String::from_str(key.substring_char(0, end))
}

/// The code hash a checksum entry's value names, if it names one.
pub fn hash_of_value(value: &str) -> (hash: Option<String>)
    ensures
        match hash {
            Some(h) => entry_hash(value@) == Some(h@),
            None => entry_hash(value@) is None,
        },
{
    let n = value.unicode_len();
    let dot = find_dot_from(value, 0);
    if dot < n {
        let end = find_dot_from(value, dot + 1);
        Some(String::from_str(value.substring_char(dot + 1, end)))
    } else {
        None
    }
}

/// Builds the checksum table from the members of the checksums document.
/// Fails with `InvalidChecksum` exactly when some member's value is not a
/// string or holds no `.`.
pub fn checksums_from_members(members: &Vec<(String, Option<String>)>) -> (result: Result<
    ChecksumMap,
    Error,
>)
    ensures
        match result {
            Ok(table) => checksums_of(members_view(members@)) == Some(table@),
            Err(e) => e is InvalidChecksum && checksums_of(members_view(members@)) is None,
        },
{
    let ghost all = members_view(members@);
    let mut table = ChecksumMap::new();
    let mut i: usize = 0;
    while i < members.len()
        invariant
            i <= members.len(),
            all == members_view(members@),
            checksums_of(all.subrange(0, i as int)) == Some(table@),
        decreases members.len() - i,
    {
        proof {
            assert(all.subrange(0, i + 1).drop_last() =~= all.subrange(0, i as int));
            assert(all.subrange(0, i + 1).last() == all[i as int]);
        }
        let hash = match &members[i].1 {
            Some(value) => hash_of_value(value.as_str()),
            None => None,
        };
        match hash {
            Some(hash) => {
                let kind = kind_of_key(members[i].0.as_str());
                table.insert(hash, kind);
            },
            None => {
                proof {
                    lemma_checksums_fail_stays(all, i + 1);
                }
                return Err(Error::InvalidChecksum);
            },
        }
        i += 1;
    }
    assert(all.subrange(0, i as int) =~= all);
    Ok(table)
}

/// Once a prefix of the members describes no table, neither does the whole.
proof fn lemma_checksums_fail_stays(members: Seq<(Seq<char>, Option<Seq<char>>)>, n: int)
    requires
        0 <= n <= members.len(),
        checksums_of(members.subrange(0, n)) is None,
    ensures
        checksums_of(members) is None,
    decreases members.len() - n,
{
    if n == members.len() {
        assert(members.subrange(0, n) =~= members);
    } else {
        assert(members.subrange(0, n + 1).drop_last() =~= members.subrange(0, n));
        lemma_checksums_fail_stays(members, n + 1);
    }
}

/// Reads the checksums document: a JSON object whose keys are
/// `kind.suffix` and whose values are `kind.hash`.
pub fn parse_checksums(text: &str) -> (result: Result<ChecksumMap, Error>)
    ensures
        match json_object_members(text@) {
            None => (result matches Err(e) && e is SerdeJsonError),
            Some(None) => (result matches Err(e) && e is InvalidChecksum),
            Some(Some(members)) => match result {
                Ok(table) => checksums_of(members) == Some(table@),
                Err(e) => e is InvalidChecksum && checksums_of(members) is None,
            },
        },
{
    match json_members(text) {
        Err(message) => Err(Error::SerdeJsonError(message)),
        Ok(None) => Err(Error::InvalidChecksum),
        Ok(Some(members)) => checksums_from_members(&members),
    }
}

/// The value of a decimal digit.
pub open spec fn digit_of(c: char) -> Option<int> {
    if '0' <= c && c <= '9' {
        Some(c as int - 48)
    } else {
        None
    }
}

/// The number that a non-empty run of decimal digits writes.
pub open spec fn digits_value(s: Seq<char>) -> Option<int>
    decreases s.len(),
{
    if s.len() == 0 {
        None
    } else {
        match digit_of(s.last()) {
            None => None,
            Some(d) => if s.len() == 1 {
                Some(d)
            } else {
                match digits_value(s.drop_last()) {
                    Some(v) => Some(10 * v + d),
                    None => None,
                }
            },
        }
    }
}

/// The 64-bit integer that a text writes in decimal: an optional sign, then
/// at least one digit. `None` when the text is no such number or the number
/// does not fit.
pub open spec fn parsed_i64(s: Seq<char>) -> Option<i64> {
    let signed = s.len() > 0 && (s[0] == '-' || s[0] == '+');
    let digits = if signed {
        s.subrange(1, s.len() as int)
    } else {
        s
    };
    match digits_value(digits) {
        Some(v) => {
            let n = if s[0] == '-' {
                -v
            } else {
                v
            };
            if i64::MIN <= n <= i64::MAX {
                Some(n as i64)
            } else {
                None
            }
        },
        None => None,
    }
}

/// A run of digits writes a number at least as large as each of its
/// non-empty prefixes does, and is no number if some prefix is none.
proof fn lemma_digits_prefix(s: Seq<char>, k: int)
    requires
        1 <= k <= s.len(),
    ensures
        digits_value(s) is Some ==> digits_value(s.subrange(0, k)) is Some && 0 <= digits_value(
            s.subrange(0, k),
        )->0 <= digits_value(s)->0,
    decreases s.len(),
{
    if k == s.len() {
        assert(s.subrange(0, k) =~= s);
        lemma_digits_nonnegative(s);
    } else {
        assert(s.drop_last().subrange(0, k) =~= s.subrange(0, k));
        lemma_digits_prefix(s.drop_last(), k);
    }
}

/// A run of digits writes no negative number.
proof fn lemma_digits_nonnegative(s: Seq<char>)
    ensures
        digits_value(s) is Some ==> digits_value(s)->0 >= 0,
    decreases s.len(),
{
    if s.len() > 1 {
        lemma_digits_nonnegative(s.drop_last());
    }
}

/// Reads a 64-bit integer written in decimal.
pub fn parse_i64(text: &str) -> (value: Option<i64>)
    ensures
        value == parsed_i64(text@),
{
    let n = text.unicode_len();
    if n == 0 {
        return None;
    }
    let first = text.get_char(0);
    let negative = first == '-';
    let start: usize = if first == '-' || first == '+' {
        1
    } else {
        0
    };
    let ghost signed = text@[0] == '-' || text@[0] == '+';
    let ghost digits = if signed {
        text@.subrange(1, n as int)
    } else {
        text@
    };
    proof {
        assert(digits =~= text@.subrange(start as int, n as int));
    }
    if start == n {
        return None;
    }
    let mut acc: i128 = 0;
    let mut i: usize = start;
    while i < n
        invariant
            start <= i <= n,
            start < n,
            n == text@.len(),
            signed == (text@[0] == '-' || text@[0] == '+'),
            digits == if signed {
                text@.subrange(1, n as int)
            } else {
                text@
            },
            digits.len() == n - start,
            0 <= acc <= 0x8000_0000_0000_0000,
            i == start ==> acc == 0,
            i > start ==> digits_value(digits.subrange(0, i - start)) == Some(acc as int),
        decreases n - i,
    {
        let c = text.get_char(i);
        let ghost upto = digits.subrange(0, i - start + 1);
        proof {
            assert(digits =~= text@.subrange(start as int, n as int));
            assert(upto.last() == c);
            assert(upto.drop_last() =~= digits.subrange(0, i - start));
            lemma_digits_prefix(digits, i - start + 1);
        }
        if c < '0' || c > '9' {
            return None;
        }
        let d: i128 = (c as u32 - 48) as i128;
        acc = acc * 10 + d;
        if acc > 0x8000_0000_0000_0000 {
            return None;
        }
        i += 1;
    }
    proof {
        assert(digits.subrange(0, n - start) =~= digits);
    }
    let v: i128 = if negative {
        -acc
    } else {
        acc
    };
    if v < i64::MIN as i128 || v > i64::MAX as i128 {
        None
    } else {
        Some(v as i64)
    }
}

} // verus!
