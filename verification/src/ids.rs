//! The identifiers of the credential ledger's records: a prefix for the kind
//! of record, and the time and the number of the ledger that it was made in.

use vstd::prelude::*;

use crate::decimal;
use crate::decimal::to_decimal;
use crate::model::Bytes;

verus! {

/// `vc:`, as text.
pub open spec fn credential_prefix() -> Seq<u8> {
    seq![118u8, 99u8, 58u8]
}

/// `del:`, as text.
pub open spec fn delegation_prefix() -> Seq<u8> {
    seq![100u8, 101u8, 108u8, 58u8]
}

/// `reg:`, as text.
pub open spec fn registry_prefix() -> Seq<u8> {
    seq![114u8, 101u8, 103u8, 58u8]
}

/// `batch:`, as text.
pub open spec fn batch_prefix() -> Seq<u8> {
    seq![98u8, 97u8, 116u8, 99u8, 104u8, 58u8]
}

/// The time and the number of a ledger, with a colon between them.
pub open spec fn ledger_stamp(timestamp: u64, sequence: u32) -> Seq<u8> {
    decimal::digits(timestamp as nat) + seq![58u8] + decimal::digits(sequence as nat)
}

/// The identifier of a credential issued in the given ledger.
pub open spec fn credential_id(timestamp: u64, sequence: u32) -> Seq<u8> {
    credential_prefix() + ledger_stamp(timestamp, sequence)
}

/// The identifier of a delegation authorized in the given ledger.
pub open spec fn delegation_id(timestamp: u64, sequence: u32) -> Seq<u8> {
    delegation_prefix() + ledger_stamp(timestamp, sequence)
}

/// The identifier of a revocation registry created in the given ledger.
pub open spec fn registry_id(timestamp: u64, sequence: u32) -> Seq<u8> {
    registry_prefix() + ledger_stamp(timestamp, sequence)
}

/// The identifier of a batch revocation made in the given ledger.
pub open spec fn batch_id(timestamp: u64, sequence: u32) -> Seq<u8> {
    batch_prefix() + ledger_stamp(timestamp, sequence)
}

fn stamped(prefix: Bytes, timestamp: u64, sequence: u32) -> (id: Bytes)
    ensures
        id@ == prefix@ + ledger_stamp(timestamp, sequence),
{
    let mut id: Bytes = prefix;
    let mut time: Bytes = to_decimal(timestamp);
    let mut number: Bytes = to_decimal(sequence as u64);
    id.append(&mut time);
    id.push(58);
    id.append(&mut number);
    assert(id@ =~= prefix@ + ledger_stamp(timestamp, sequence));
    id
}

/// The identifier of a credential issued in the given ledger.
pub fn generate_credential_id(timestamp: u64, sequence: u32) -> (id: Bytes)
    ensures
        id@ == credential_id(timestamp, sequence),
{
    let prefix: Bytes = vec![118, 99, 58];
    assert(prefix@ =~= credential_prefix());
    stamped(prefix, timestamp, sequence)
}

/// The identifier of a delegation authorized in the given ledger.
pub fn generate_delegation_id(timestamp: u64, sequence: u32) -> (id: Bytes)
    ensures
        id@ == delegation_id(timestamp, sequence),
{
    let prefix: Bytes = vec![100, 101, 108, 58];
    assert(prefix@ =~= delegation_prefix());
    stamped(prefix, timestamp, sequence)
}

/// The identifier of a revocation registry created in the given ledger.
pub fn generate_registry_id(timestamp: u64, sequence: u32) -> (id: Bytes)
    ensures
        id@ == registry_id(timestamp, sequence),
{
    let prefix: Bytes = vec![114, 101, 103, 58];
    assert(prefix@ =~= registry_prefix());
    stamped(prefix, timestamp, sequence)
}

/// The identifier of a batch revocation made in the given ledger.
pub fn generate_batch_id(timestamp: u64, sequence: u32) -> (id: Bytes)
    ensures
        id@ == batch_id(timestamp, sequence),
{
    let prefix: Bytes = vec![98, 97, 116, 99, 104, 58];
    assert(prefix@ =~= batch_prefix());
    stamped(prefix, timestamp, sequence)
}

/// Two ledgers with the same stamp are the same ledger.
pub proof fn lemma_stamp_injective(t1: u64, s1: u32, t2: u64, s2: u32)
    requires
        ledger_stamp(t1, s1) == ledger_stamp(t2, s2),
    ensures
        t1 == t2,
        s1 == s2,
{
    let d1 = decimal::digits(t1 as nat);
    let d2 = decimal::digits(t2 as nat);
    let n1 = decimal::digits(s1 as nat);
    let n2 = decimal::digits(s2 as nat);
    decimal::lemma_digits_are_digits(t1 as nat);
    decimal::lemma_digits_are_digits(t2 as nat);
    let a = ledger_stamp(t1, s1);
    let b = ledger_stamp(t2, s2);
    // The colon is no digit, so both stamps have it at the same place.
    assert(a[d1.len() as int] == 58);
    assert(b[d2.len() as int] == 58);
    if d1.len() < d2.len() {
        assert(b[d1.len() as int] == d2[d1.len() as int]);
    }
    if d2.len() < d1.len() {
        assert(a[d2.len() as int] == d1[d2.len() as int]);
    }
    assert(a.take(d1.len() as int) =~= d1);
    assert(b.take(d1.len() as int) =~= d2);
    assert(a.skip((d1.len() + 1) as int) =~= n1);
    assert(b.skip((d1.len() + 1) as int) =~= n2);
    decimal::lemma_digits_injective(t1 as nat, t2 as nat);
    decimal::lemma_digits_injective(s1 as nat, s2 as nat);
}

/// Records of one kind have the same identifier exactly where they were made
/// in the same ledger.
pub proof fn law_ids_tell_ledgers_apart(t1: u64, s1: u32, t2: u64, s2: u32)
    ensures
        credential_id(t1, s1) == credential_id(t2, s2) <==> (t1, s1) == (t2, s2),
        delegation_id(t1, s1) == delegation_id(t2, s2) <==> (t1, s1) == (t2, s2),
        registry_id(t1, s1) == registry_id(t2, s2) <==> (t1, s1) == (t2, s2),
        batch_id(t1, s1) == batch_id(t2, s2) <==> (t1, s1) == (t2, s2),
{
    let a = ledger_stamp(t1, s1);
    let b = ledger_stamp(t2, s2);
    assert(credential_id(t1, s1).skip(3) =~= a);
    assert(credential_id(t2, s2).skip(3) =~= b);
    assert(delegation_id(t1, s1).skip(4) =~= a);
    assert(delegation_id(t2, s2).skip(4) =~= b);
    assert(registry_id(t1, s1).skip(4) =~= a);
    assert(registry_id(t2, s2).skip(4) =~= b);
    assert(batch_id(t1, s1).skip(6) =~= a);
    assert(batch_id(t2, s2).skip(6) =~= b);
    if a == b {
        lemma_stamp_injective(t1, s1, t2, s2);
    }
}

/// Records of different kinds never share an identifier.
pub proof fn law_ids_tell_kinds_apart(t1: u64, s1: u32, t2: u64, s2: u32)
    ensures
        credential_id(t1, s1) != delegation_id(t2, s2),
        credential_id(t1, s1) != registry_id(t2, s2),
        credential_id(t1, s1) != batch_id(t2, s2),
        delegation_id(t1, s1) != registry_id(t2, s2),
        delegation_id(t1, s1) != batch_id(t2, s2),
        registry_id(t1, s1) != batch_id(t2, s2),
{
    assert(credential_id(t1, s1)[0] == 118);
    assert(delegation_id(t1, s1)[0] == 100);
    assert(registry_id(t1, s1)[0] == 114);
    assert(delegation_id(t2, s2)[0] == 100);
    assert(registry_id(t2, s2)[0] == 114);
    assert(batch_id(t2, s2)[0] == 98);
}

/// Identifiers spell `vc:`, `del:`, `reg:` or `batch:`, then the time of the
/// ledger in decimal notation, a colon, and its number in decimal notation.
pub proof fn law_ids_spell_kind_time_and_number(timestamp: u64, sequence: u32)
    ensures
        ({
            let time = decimal::digits(timestamp as nat);
            let number = decimal::digits(sequence as nat);
            let rest = time + seq![58u8] + number;
            &&& credential_id(timestamp, sequence) == seq![118u8, 99u8, 58u8] + rest
            &&& delegation_id(timestamp, sequence) == seq![100u8, 101u8, 108u8, 58u8] + rest
            &&& registry_id(timestamp, sequence) == seq![114u8, 101u8, 103u8, 58u8] + rest
            &&& batch_id(timestamp, sequence) == seq![98u8, 97u8, 116u8, 99u8, 104u8, 58u8] + rest
        }),
{
}

} // verus!
