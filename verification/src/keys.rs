//! The database encryption key: how a new key is made, how it is handed to
//! SQLCipher, and what to do with the key store's answer.

use vstd::prelude::*;

use rand::RngCore;

use crate::text::{decimal, decimal_u64, push_all, push_str, string_of};

verus! {

// ---------------------------------------------------------------------------
// Hexadecimal keys
// ---------------------------------------------------------------------------

/// The lowercase hexadecimal digit of `d < 16`.
pub open spec fn hex_digit(d: nat) -> char {
    if d == 0 {
        '0'
    } else if d == 1 {
        '1'
    } else if d == 2 {
        '2'
    } else if d == 3 {
        '3'
    } else if d == 4 {
        '4'
    } else if d == 5 {
        '5'
    } else if d == 6 {
        '6'
    } else if d == 7 {
        '7'
    } else if d == 8 {
        '8'
    } else if d == 9 {
        '9'
    } else if d == 10 {
        'a'
    } else if d == 11 {
        'b'
    } else if d == 12 {
        'c'
    } else if d == 13 {
        'd'
    } else if d == 14 {
        'e'
    } else {
        'f'
    }
}

/// Two lowercase hexadecimal digits per byte, high half first.
pub open spec fn hex_lower(bytes: Seq<u8>) -> Seq<char>
    decreases bytes.len(),
{
    if bytes.len() == 0 {
        seq![]
    } else {
        hex_lower(bytes.drop_last()) + seq![
            hex_digit((bytes.last() / 16) as nat),
            hex_digit((bytes.last() % 16) as nat),
        ]
    }
}

/// Calls `hex::encode`, which writes each byte as two lowercase hexadecimal
/// digits, high half first (its table `0123456789abcdef`).
#[verifier::external_body]
fn hex_encode(bytes: &[u8]) -> (r: String)
    ensures
        r@ == hex_lower(bytes@),
{
    hex::encode(bytes)
}

/// Calls `OsRng::try_fill_bytes` (rand's re-export of rand_core's
/// generator backed by the operating system) on a 32-byte buffer. A failure
/// of the operating system's source comes back as an error, not a panic; the
/// bytes themselves are random and nothing is claimed of them.
#[verifier::external_body]
fn random_key_bytes() -> (r: Option<Vec<u8>>)
    ensures
        r matches Some(b) ==> b@.len() == 32,
{
    let mut bytes = [0u8; 32];
    match RngCore::try_fill_bytes(&mut rand::rngs::OsRng, &mut bytes) {
        Ok(()) => Some(bytes.to_vec()),
        Err(_) => None,
    }
}

proof fn lemma_hex_len(bytes: Seq<u8>)
    ensures
        hex_lower(bytes).len() == 2 * bytes.len(),
    decreases bytes.len(),
{
    if bytes.len() > 0 {
        lemma_hex_len(bytes.drop_last());
    }
}

/// The hexadecimal text of a raw key.
pub fn encode_db_key(raw: &[u8]) -> (r: String)
    ensures
        r@ == hex_lower(raw@),
        r@.len() == 2 * raw@.len(),
{
    proof {
        lemma_hex_len(raw@);
    }
    hex_encode(raw)
}

/// A fresh key: 32 bytes from the operating system's random source as 64
/// lowercase hexadecimal digits, or `None` when that source fails.
pub fn new_db_key() -> (r: Option<String>)
    ensures
        r matches Some(k) ==> k@.len() == 64 && exists|raw: Seq<u8>|
            raw.len() == 32 && k@ == hex_lower(raw),
{
    match random_key_bytes() {
        Some(raw) => Some(encode_db_key(raw.as_slice())),
        None => None,
    }
}

/// The statement that unlocks an SQLCipher database with a hexadecimal key.
pub open spec fn key_pragma_text(key: Seq<char>) -> Seq<char> {
    "PRAGMA key = \"x'"@ + key + "'\";"@
}

/// The statement that unlocks the database with `key`.
pub fn key_pragma(key: &str) -> (r: String)
    ensures
        r@ == key_pragma_text(key@),
{
    let mut out: Vec<char> = Vec::new();
    push_str(&mut out, "PRAGMA key = \"x'");
    push_str(&mut out, key);
    push_str(&mut out, "'\";");
    assert(out@ =~= key_pragma_text(key@));
    string_of(out.as_slice())
}

// ---------------------------------------------------------------------------
// The key store's answer
// ---------------------------------------------------------------------------

/// What the operating system's key store answered for the database key.
pub enum KeyLookup {
    /// The stored key.
    Found(String),
    /// No key is stored.
    Missing,
    /// The store failed, with its message.
    Unavailable(String),
}

/// What to do next.
pub enum KeyPlan {
    /// Open the database with this key.
    Use(String),
    /// Make and store a new key, first moving an existing (now unreadable)
    /// database file aside when `set_aside_database` holds.
    Create { set_aside_database: bool },
    /// Give up with this key-store message.
    Fail(String),
}

/// A stored key is used; a missing key is replaced by a new one, an
/// existing database being moved aside first since it cannot be read
/// without its key; a failing store is an error.
pub fn plan_key(lookup: KeyLookup, database_exists: bool) -> (r: KeyPlan)
    ensures
        match lookup {
            KeyLookup::Found(k) => r == KeyPlan::Use(k),
            KeyLookup::Missing => r == (KeyPlan::Create { set_aside_database: database_exists }),
            KeyLookup::Unavailable(m) => r == KeyPlan::Fail(m),
        },
{
    match lookup {
        KeyLookup::Found(k) => KeyPlan::Use(k),
        KeyLookup::Missing => KeyPlan::Create { set_aside_database: database_exists },
        KeyLookup::Unavailable(m) => KeyPlan::Fail(m),
    }
}

/// The decimal numeral of a signed integer, with a leading `-` when
/// negative.
pub open spec fn signed_decimal(i: int) -> Seq<char> {
    if i < 0 {
        seq!['-'] + decimal((-i) as nat)
    } else {
        decimal(i as nat)
    }
}

/// The file extension an unreadable database is moved to:
/// `db.unreadable.<timestamp>`.
pub open spec fn unreadable_extension_text(timestamp: i64) -> Seq<char> {
    "db.unreadable."@ + signed_decimal(timestamp as int)
}

/// The extension given to a database that was set aside at `timestamp`.
pub fn unreadable_extension(timestamp: i64) -> (r: String)
    ensures
        r@ == unreadable_extension_text(timestamp),
{
    let mut out: Vec<char> = Vec::new();
    push_str(&mut out, "db.unreadable.");
    if timestamp < 0 {
        out.push('-');
        let magnitude: u64 = (-(timestamp + 1)) as u64 + 1;
        let d = decimal_u64(magnitude);
        push_all(&mut out, d.as_slice());
    } else {
        let d = decimal_u64(timestamp as u64);
        push_all(&mut out, d.as_slice());
    }
    assert(out@ =~= unreadable_extension_text(timestamp));
    string_of(out.as_slice())
}

} // verus!
