//! Compiling instructions into a versioned transaction.
//!
//! Callers assemble instructions with explicit addresses; compiling
//! collects every referenced key once, orders signers before
//! non-signers and writable keys before read-only ones within each
//! section, moves non-signing, non-invoked keys found in a provided
//! address lookup table into compact table references, indexes every
//! instruction account into the resulting key space, and signs with
//! one signature per distinct required signer — repeated signer keys
//! are deduplicated before signing.

use vstd::prelude::*;
use vstd::slice::slice_to_vec;
use crate::addr::{Address, BlockHash, Signature};
use crate::capability::{Client, GetLatestBlockhash};
use crate::errors::{ClientError, CompileFailure};
use crate::sanitize::spec_resolve_indexes;
use crate::transaction::{
    AddressLookupTableAccount, CompiledInstruction, Instruction, LookupTableReference,
    MessageHeader, VersionedTransaction,
};

verus! {

/// Whether `k` must sign: it is the payer, or some instruction names
/// it as a signing account.
pub open spec fn spec_key_is_signer(instrs: Seq<Instruction>, payer: Address, k: Address) -> bool {
    ||| k == payer
    ||| exists|i: int, a: int|
        0 <= i < instrs.len() && 0 <= a < instrs[i].accounts@.len() && (#[trigger] instrs[i].accounts@[a]).is_signer
            && instrs[i].accounts@[a].address == k
}

/// Whether `k` is written: it is the payer (who pays the fee), or some
/// instruction names it as a writable account.
pub open spec fn spec_key_is_writable(instrs: Seq<Instruction>, payer: Address, k: Address) -> bool {
    ||| k == payer
    ||| exists|i: int, a: int|
        0 <= i < instrs.len() && 0 <= a < instrs[i].accounts@.len() && (#[trigger] instrs[i].accounts@[a]).is_writable
            && instrs[i].accounts@[a].address == k
}

/// Whether `k` is an invoked program id; invoked keys always stay in
/// the static key list.
pub open spec fn spec_key_is_invoked(instrs: Seq<Instruction>, k: Address) -> bool {
    exists|i: int| 0 <= i < instrs.len() && (#[trigger] instrs[i]).program_id == k
}

/// Whether `k` is referenced at all: as payer, as an invoked program,
/// or as an instruction account.
pub open spec fn spec_key_is_referenced(
    instrs: Seq<Instruction>,
    payer: Address,
    k: Address,
) -> bool {
    ||| k == payer
    ||| exists|i: int| 0 <= i < instrs.len() && (#[trigger] instrs[i]).program_id == k
    ||| exists|i: int, a: int|
        0 <= i < instrs.len() && 0 <= a < instrs[i].accounts@.len() && (#[trigger] instrs[i].accounts@[a]).address
            == k
}

/// Every key a compilation must index.
pub open spec fn spec_referenced_key_set(instrs: Seq<Instruction>, payer: Address) -> Set<
    Address,
> {
    Set::new(|k: Address| spec_key_is_referenced(instrs, payer, k))
}

/// Every key that must sign.
pub open spec fn spec_signer_key_set(instrs: Seq<Instruction>, payer: Address) -> Set<Address> {
    Set::new(|k: Address| spec_key_is_signer(instrs, payer, k))
}

/// Every signing key that is never written.
pub open spec fn spec_readonly_signer_key_set(instrs: Seq<Instruction>, payer: Address) -> Set<
    Address,
> {
    Set::new(
        |k: Address|
            spec_key_is_signer(instrs, payer, k) && !spec_key_is_writable(instrs, payer, k),
    )
}

/// Every referenced key that neither signs nor is written.
pub open spec fn spec_readonly_other_key_set(instrs: Seq<Instruction>, payer: Address) -> Set<
    Address,
> {
    Set::new(
        |k: Address|
            spec_key_is_referenced(instrs, payer, k) && !spec_key_is_signer(instrs, payer, k)
                && !spec_key_is_writable(instrs, payer, k),
    )
}

/// Whether the referenced keys overflow what compact indexes and the
/// one-byte header counters can carry: more than 256 distinct keys in
/// all, or more than 255 signers, read-only signers, or read-only
/// non-signers.
pub open spec fn spec_compile_over_limit(instrs: Seq<Instruction>, payer: Address) -> bool {
    ||| spec_referenced_key_set(instrs, payer).len() > 256
    ||| spec_signer_key_set(instrs, payer).len() > 255
    ||| spec_readonly_signer_key_set(instrs, payer).len() > 255
    ||| spec_readonly_other_key_set(instrs, payer).len() > 255
}

/// The first signature offered for `k`, if any.
pub open spec fn spec_signature_for(signers: Seq<(Address, Signature)>, k: Address) -> Option<
    Signature,
>
    decreases signers.len(),
{
    if signers.len() == 0 {
        None
    } else if signers[0].0 == k {
        Some(signers[0].1)
    } else {
        spec_signature_for(signers.drop_first(), k)
    }
}

/// The address list of the first provided table with address `addr`;
/// empty when no table has it.
pub open spec fn spec_first_table_addresses(
    tables: Seq<AddressLookupTableAccount>,
    addr: Address,
) -> Seq<Address>
    decreases tables.len(),
{
    if tables.len() == 0 {
        Seq::empty()
    } else if tables[0].key == addr {
        tables[0].addresses@
    } else {
        spec_first_table_addresses(tables.drop_first(), addr)
    }
}

/// With pairwise distinct table addresses, each table is the first
/// match for its own address.
proof fn lemma_first_table_addresses_at(tables: Seq<AddressLookupTableAccount>, t: int)
    requires
        0 <= t < tables.len(),
        forall|p: int, q: int| 0 <= p < q < tables.len() ==> tables[p].key != tables[q].key,
    ensures
        spec_first_table_addresses(tables, tables[t].key) == tables[t].addresses@,
    decreases t,
{
    if t > 0 {
        assert(tables[0].key != tables[t].key);
        let rest = tables.drop_first();
        assert forall|p: int, q: int| 0 <= p < q < rest.len() implies rest[p].key
            != rest[q].key by {
            assert(rest[p] == tables[p + 1]);
            assert(rest[q] == tables[q + 1]);
        }
        assert(rest[t - 1] == tables[t]);
        lemma_first_table_addresses_at(rest, t - 1);
    }
}

/// Resolving every compiled table reference against the provided
/// tables, in reference order: each reference's table must be among
/// them (by first match) and every index must fall inside it. On
/// success the writable resolutions of all references are concatenated
/// in order, and the read-only resolutions likewise.
pub open spec fn spec_lookup_resolutions(
    lookups: Seq<LookupTableReference>,
    tables: Seq<AddressLookupTableAccount>,
) -> Option<(Seq<Address>, Seq<Address>)>
    decreases lookups.len(),
{
    if lookups.len() == 0 {
        Some((Seq::empty(), Seq::empty()))
    } else {
        match spec_lookup_resolutions(lookups.drop_last(), tables) {
            None => None,
            Some(wr) => {
                let addrs = spec_first_table_addresses(tables, lookups.last().table_address);
                match (
                    spec_resolve_indexes(lookups.last().writable_indexes@, addrs),
                    spec_resolve_indexes(lookups.last().readonly_indexes@, addrs),
                ) {
                    (Some(w), Some(r)) => Some((wr.0 + w, wr.1 + r)),
                    _ => None,
                }
            },
        }
    }
}

/// See [`spec_key_is_signer`].
#[verifier::loop_isolation(false)]
fn key_is_signer(instructions: &Vec<Instruction>, payer: &Address, k: &Address) -> (r: bool)
    ensures
        r == spec_key_is_signer(instructions@, *payer, *k),
{
    if *k == *payer {
        return true;
    }
    let mut i: usize = 0;
    while i < instructions.len()
        invariant
            0 <= i <= instructions@.len(),
            forall|x: int, a: int|
                0 <= x < i && 0 <= a < instructions@[x].accounts@.len() ==> !((
                #[trigger] instructions@[x].accounts@[a]).is_signer && instructions@[x].accounts@[a].address
                    == *k),
        decreases instructions@.len() - i,
    {
        let accounts = &instructions[i].accounts;
        let mut a: usize = 0;
        while a < accounts.len()
            invariant
                0 <= a <= accounts@.len(),
                accounts@ == instructions@[i as int].accounts@,
                forall|b: int|
                    0 <= b < a ==> !((#[trigger] accounts@[b]).is_signer && accounts@[b].address
                        == *k),
            decreases accounts@.len() - a,
        {
            if accounts[a].is_signer && accounts[a].address == *k {
                return true;
            }
            a = a + 1;
        }
        i = i + 1;
    }
    false
}

/// See [`spec_key_is_writable`].
#[verifier::loop_isolation(false)]
fn key_is_writable(instructions: &Vec<Instruction>, payer: &Address, k: &Address) -> (r: bool)
    ensures
        r == spec_key_is_writable(instructions@, *payer, *k),
{
    if *k == *payer {
        return true;
    }
    let mut i: usize = 0;
    while i < instructions.len()
        invariant
            0 <= i <= instructions@.len(),
            forall|x: int, a: int|
                0 <= x < i && 0 <= a < instructions@[x].accounts@.len() ==> !((
                #[trigger] instructions@[x].accounts@[a]).is_writable && instructions@[x].accounts@[a].address
                    == *k),
        decreases instructions@.len() - i,
    {
        let accounts = &instructions[i].accounts;
        let mut a: usize = 0;
        while a < accounts.len()
            invariant
                0 <= a <= accounts@.len(),
                accounts@ == instructions@[i as int].accounts@,
                forall|b: int|
                    0 <= b < a ==> !((#[trigger] accounts@[b]).is_writable && accounts@[b].address
                        == *k),
            decreases accounts@.len() - a,
        {
            if accounts[a].is_writable && accounts[a].address == *k {
                return true;
            }
            a = a + 1;
        }
        i = i + 1;
    }
    false
}

/// See [`spec_key_is_invoked`].
#[verifier::loop_isolation(false)]
fn key_is_invoked(instructions: &Vec<Instruction>, k: &Address) -> (r: bool)
    ensures
        r == spec_key_is_invoked(instructions@, *k),
{
    let mut i: usize = 0;
    while i < instructions.len()
        invariant
            0 <= i <= instructions@.len(),
            forall|x: int| 0 <= x < i ==> (#[trigger] instructions@[x]).program_id != *k,
        decreases instructions@.len() - i,
    {
        if instructions[i].program_id == *k {
            return true;
        }
        i = i + 1;
    }
    false
}

/// See [`spec_signature_for`].
#[verifier::loop_isolation(false)]
fn signature_for(signers: &Vec<(Address, Signature)>, k: &Address) -> (r: Option<Signature>)
    ensures
        r == spec_signature_for(signers@, *k),
{
    let n = signers.len();
    proof {
        assert(signers@.subrange(0, n as int) =~= signers@);
    }
    let mut i: usize = 0;
    while i < n
        invariant
            0 <= i <= n,
            n == signers@.len(),
            spec_signature_for(signers@, *k) == spec_signature_for(
                signers@.subrange(i as int, n as int),
                *k,
            ),
        decreases n - i,
    {
        proof {
            assert(signers@.subrange(i as int, n as int).drop_first() =~= signers@.subrange(
                i as int + 1,
                n as int,
            ));
            assert(signers@.subrange(i as int, n as int)[0] == signers@[i as int]);
        }
        if signers[i].0 == *k {
            return Some(signers[i].1);
        }
        i = i + 1;
    }
    None
}

/// The position of `k` in a key list, if present.
#[verifier::loop_isolation(false)]
fn find_key_position(keys: &Vec<Address>, k: &Address) -> (r: Option<usize>)
    ensures
        (match r {
            Some(p) => p < keys@.len() && keys@[p as int] == *k,
            None => !keys@.contains(*k),
        }),
{
    let mut i: usize = 0;
    while i < keys.len()
        invariant
            0 <= i <= keys@.len(),
            forall|j: int| 0 <= j < i ==> keys@[j] != *k,
        decreases keys@.len() - i,
    {
        if keys[i] == *k {
            return Some(i);
        }
        i = i + 1;
    }
    None
}

/// Splits `remaining` into the keys claimed by one table — present in
/// its address list at an index a byte can carry, and not invoked —
/// and the keys kept; claimed keys come with their table indexes.
#[verifier::loop_isolation(false)]
fn extract_from_table(
    instructions: &Vec<Instruction>,
    table_addresses: &Vec<Address>,
    remaining: Vec<Address>,
) -> (r: (Vec<Address>, Vec<u8>, Vec<Address>))
    requires
        forall|p: int, q: int| 0 <= p < q < remaining@.len() ==> remaining@[p] != remaining@[q],
    ensures
        ({
            let (keep, idxs, claimed) = r;
            &&& idxs@.len() == claimed@.len()
            &&& forall|p: int|
                0 <= p < idxs@.len() ==> (#[trigger] idxs@[p]) < table_addresses@.len()
                    && table_addresses@[idxs@[p] as int] == claimed@[p]
            &&& forall|p: int|
                0 <= p < claimed@.len() ==> !spec_key_is_invoked(
                    instructions@,
                    #[trigger] claimed@[p],
                )
            &&& forall|p: int| 0 <= p < keep@.len() ==> remaining@.contains(#[trigger] keep@[p])
            &&& forall|p: int|
                0 <= p < claimed@.len() ==> remaining@.contains(#[trigger] claimed@[p])
            &&& forall|k: Address|
                #[trigger] remaining@.contains(k) ==> keep@.contains(k) || claimed@.contains(k)
            &&& forall|p: int, q: int| 0 <= p < q < keep@.len() ==> keep@[p] != keep@[q]
            &&& forall|p: int, q: int| 0 <= p < q < claimed@.len() ==> claimed@[p] != claimed@[q]
            &&& forall|p: int, q: int|
                0 <= p < keep@.len() && 0 <= q < claimed@.len() ==> keep@[p] != claimed@[q]
        }),
{
    let mut keep: Vec<Address> = Vec::new();
    let mut idxs: Vec<u8> = Vec::new();
    let mut claimed: Vec<Address> = Vec::new();
    let mut x: usize = 0;
    while x < remaining.len()
        invariant
            0 <= x <= remaining@.len(),
            idxs@.len() == claimed@.len(),
            forall|p: int|
                0 <= p < idxs@.len() ==> (#[trigger] idxs@[p]) < table_addresses@.len()
                    && table_addresses@[idxs@[p] as int] == claimed@[p],
            forall|p: int|
                0 <= p < claimed@.len() ==> !spec_key_is_invoked(
                    instructions@,
                    #[trigger] claimed@[p],
                ),
            forall|p: int|
                0 <= p < keep@.len() ==> remaining@.subrange(0, x as int).contains(
                    #[trigger] keep@[p],
                ),
            forall|p: int|
                0 <= p < claimed@.len() ==> remaining@.subrange(0, x as int).contains(
                    #[trigger] claimed@[p],
                ),
            forall|y: int|
                0 <= y < x ==> keep@.contains(#[trigger] remaining@[y]) || claimed@.contains(
                    remaining@[y],
                ),
            forall|p: int, q: int| 0 <= p < q < keep@.len() ==> keep@[p] != keep@[q],
            forall|p: int, q: int| 0 <= p < q < claimed@.len() ==> claimed@[p] != claimed@[q],
            forall|p: int, q: int|
                0 <= p < keep@.len() && 0 <= q < claimed@.len() ==> keep@[p] != claimed@[q],
        decreases remaining@.len() - x,
    {
        let key = remaining[x];
        let ghost pre_keep = keep@;
        let ghost pre_claimed = claimed@;
        proof {
            assert(remaining@.subrange(0, x as int + 1).drop_last() =~= remaining@.subrange(
                0,
                x as int,
            ));
            assert(remaining@.subrange(0, x as int + 1).last() == key);
            // The key is new to both sides: they hold only earlier
            // elements, all distinct from this one.
            assert(!remaining@.subrange(0, x as int).contains(key)) by {
                if remaining@.subrange(0, x as int).contains(key) {
                    let p = choose|p: int|
                        0 <= p < x && remaining@.subrange(0, x as int)[p] == key;
                    assert(remaining@[p] == remaining@[x as int]);
                }
            }
        }
        let mut claim_index: Option<usize> = None;
        if !key_is_invoked(instructions, &key) {
            match find_key_position(table_addresses, &key) {
                Some(p) => {
                    if p <= 255 {
                        claim_index = Some(p);
                    }
                },
                None => {
                },
            }
        }
        match claim_index {
            Some(p) => {
                idxs.push(p as u8);
                claimed.push(key);
            },
            None => {
                keep.push(key);
            },
        }
        proof {
            let sub = remaining@.subrange(0, x as int + 1);
            assert forall|p: int| 0 <= p < keep@.len() implies sub.contains(
                #[trigger] keep@[p],
            ) by {
                if p < pre_keep.len() {
                    let q = choose|q: int|
                        0 <= q < x && remaining@.subrange(0, x as int)[q] == pre_keep[p];
                    assert(sub[q] == keep@[p]);
                } else {
                    assert(sub[x as int] == key);
                }
            }
            assert forall|p: int| 0 <= p < claimed@.len() implies sub.contains(
                #[trigger] claimed@[p],
            ) by {
                if p < pre_claimed.len() {
                    let q = choose|q: int|
                        0 <= q < x && remaining@.subrange(0, x as int)[q] == pre_claimed[p];
                    assert(sub[q] == claimed@[p]);
                } else {
                    assert(sub[x as int] == key);
                }
            }
            assert forall|y: int| 0 <= y < x + 1 implies keep@.contains(
                #[trigger] remaining@[y],
            ) || claimed@.contains(remaining@[y]) by {
                if y < x {
                    if pre_keep.contains(remaining@[y]) {
                        let p = choose|p: int|
                            0 <= p < pre_keep.len() && pre_keep[p] == remaining@[y];
                        assert(keep@[p] == remaining@[y]);
                    } else {
                        let p = choose|p: int|
                            0 <= p < pre_claimed.len() && pre_claimed[p] == remaining@[y];
                        assert(claimed@[p] == remaining@[y]);
                    }
                } else {
                    if keep@.len() > pre_keep.len() {
                        assert(keep@[keep@.len() - 1] == key);
                    } else {
                        assert(claimed@[claimed@.len() - 1] == key);
                    }
                }
            }
        }
        x = x + 1;
    }
    proof {
        assert(remaining@.subrange(0, remaining@.len() as int) =~= remaining@);
        assert forall|p: int| 0 <= p < keep@.len() implies remaining@.contains(
            #[trigger] keep@[p],
        ) by {
            let q = choose|q: int|
                0 <= q < remaining@.len() && remaining@.subrange(
                    0,
                    remaining@.len() as int,
                )[q] == keep@[p];
            assert(remaining@[q] == keep@[p]);
        }
        assert forall|p: int| 0 <= p < claimed@.len() implies remaining@.contains(
            #[trigger] claimed@[p],
        ) by {
            let q = choose|q: int|
                0 <= q < remaining@.len() && remaining@.subrange(
                    0,
                    remaining@.len() as int,
                )[q] == claimed@[p];
            assert(remaining@[q] == claimed@[p]);
        }
        assert forall|k: Address| #[trigger] remaining@.contains(k) implies keep@.contains(k)
            || claimed@.contains(k) by {
            let y = choose|y: int| 0 <= y < remaining@.len() && remaining@[y] == k;
            assert(keep@.contains(remaining@[y]) || claimed@.contains(remaining@[y]));
        }
    }
    (keep, idxs, claimed)
}

/// Compiles instructions against a payer, offered signatures, provided
/// address lookup tables and a recent blockhash.
///
/// On success the transaction's key space — its static keys followed
/// by the writable and then the read-only resolutions of its table
/// references against the provided tables — holds exactly the
/// referenced keys, each once, payer first; the header partitions the
/// static list into signers before non-signers, writable before
/// read-only within each section; only non-signing, non-invoked keys
/// are moved into table references, writable and read-only ones into
/// the respective index lists; every instruction account is indexed
/// into the key space; and signatures line up with the deduplicated
/// signer keys, one each.
///
/// The too-many-keys error comes exactly when the referenced keys
/// overflow the compact index space or a header counter, judged before
/// extraction; a missing-signature error comes exactly when, within
/// those bounds, a required signer offered no signature.
#[verifier::loop_isolation(false)]
#[verifier::rlimit(100)]
pub fn compile_transaction_with_blockhash(
    instructions: &Vec<Instruction>,
    payer: Address,
    signers: &Vec<(Address, Signature)>,
    lookup_tables: &Vec<AddressLookupTableAccount>,
    recent_blockhash: BlockHash,
) -> (r: Result<VersionedTransaction, ClientError>)
    requires
        forall|p: int, q: int|
            0 <= p < q < lookup_tables@.len() ==> lookup_tables@[p].key != lookup_tables@[q].key,
    ensures
        (match r {
            Ok(tx) => {
                let resolutions = spec_lookup_resolutions(tx.lookups@, lookup_tables@);
                &&& tx.recent_blockhash == recent_blockhash
                &&& resolutions is Some
                &&& {
                    let keys = tx.static_keys@ + resolutions.unwrap().0 + resolutions.unwrap().1;
                    let statics = tx.static_keys@.len() as int;
                    let nrs = tx.header.num_required_signatures as int;
                    let nro_s = tx.header.num_readonly_signed as int;
                    let nro_u = tx.header.num_readonly_unsigned as int;
                    &&& statics > 0 && tx.static_keys@[0] == payer
                    &&& forall|p: int, q: int| 0 <= p < q < keys.len() ==> keys[p] != keys[q]
                    &&& forall|k: Address|
                        #[trigger] keys.contains(k) <==> spec_key_is_referenced(
                            instructions@,
                            payer,
                            k,
                        )
                    &&& 0 < nrs <= statics
                    &&& nro_s <= nrs
                    &&& nro_u <= statics - nrs
                    &&& forall|j: int|
                        0 <= j < keys.len() ==> ((j < nrs) <==> spec_key_is_signer(
                            instructions@,
                            payer,
                            #[trigger] keys[j],
                        ))
                    &&& forall|j: int|
                        0 <= j < nrs ==> ((j < nrs - nro_s) <==> spec_key_is_writable(
                            instructions@,
                            payer,
                            #[trigger] keys[j],
                        ))
                    &&& forall|j: int|
                        nrs <= j < statics ==> ((j < statics - nro_u) <==> spec_key_is_writable(
                            instructions@,
                            payer,
                            #[trigger] keys[j],
                        ))
                    &&& forall|j: int|
                        statics <= j < statics + resolutions.unwrap().0.len()
                            ==> spec_key_is_writable(instructions@, payer, #[trigger] keys[j])
                                && !spec_key_is_invoked(instructions@, keys[j])
                    &&& forall|j: int|
                        statics + resolutions.unwrap().0.len() <= j < keys.len()
                            ==> !spec_key_is_writable(instructions@, payer, #[trigger] keys[j])
                                && !spec_key_is_invoked(instructions@, keys[j])
                    &&& tx.signatures@.len() == nrs
                    &&& forall|j: int|
                        0 <= j < nrs ==> spec_signature_for(signers@, keys[j]) == Some(
                            #[trigger] tx.signatures@[j],
                        )
                    &&& tx.instructions@.len() == instructions@.len()
                    &&& forall|i: int|
                        0 <= i < instructions@.len() ==> {
                            let ci = #[trigger] tx.instructions@[i];
                            let src = instructions@[i];
                            &&& ci.program_id_index < keys.len()
                            &&& keys[ci.program_id_index as int] == src.program_id
                            &&& ci.account_indexes@.len() == src.accounts@.len()
                            &&& forall|a: int|
                                0 <= a < src.accounts@.len() ==> (
                                #[trigger] ci.account_indexes@[a]) < keys.len()
                                    && keys[ci.account_indexes@[a] as int]
                                    == src.accounts@[a].address
                            &&& ci.data@ == src.data@
                        }
                    &&& !spec_compile_over_limit(instructions@, payer)
                    &&& forall|k: Address|
                        spec_key_is_signer(instructions@, payer, k) ==> #[trigger] spec_signature_for(
                            signers@,
                            k,
                        ) is Some
                }
            },
            Err(e) => (match e {
                ClientError::Compile { error: CompileFailure::TooManyKeys } => spec_compile_over_limit(
                    instructions@,
                    payer,
                ),
                ClientError::Compile { error: CompileFailure::MissingSignature { address } } => {
                    &&& !spec_compile_over_limit(instructions@, payer)
                    &&& spec_key_is_signer(instructions@, payer, address)
                    &&& spec_signature_for(signers@, address) is None
                },
                _ => false,
            }),
        }),
{
    // Collect every referenced key once, payer first.
    let mut candidates: Vec<Address> = Vec::new();
    candidates.push(payer);
    let mut i: usize = 0;
    while i < instructions.len()
        invariant
            0 <= i <= instructions@.len(),
            candidates@.len() > 0 && candidates@[0] == payer,
            forall|p: int, q: int| 0 <= p < q < candidates@.len() ==> candidates@[p]
                != candidates@[q],
            forall|p: int|
                0 <= p < candidates@.len() ==> spec_key_is_referenced(
                    instructions@,
                    payer,
                    #[trigger] candidates@[p],
                ),
            forall|x: int|
                0 <= x < i ==> candidates@.contains((#[trigger] instructions@[x]).program_id),
            forall|x: int, a: int|
                0 <= x < i && 0 <= a < instructions@[x].accounts@.len() ==> candidates@.contains(
                    (#[trigger] instructions@[x].accounts@[a]).address,
                ),
        decreases instructions@.len() - i,
    {
        let ghost pre_outer = candidates@;
        let program_id = instructions[i].program_id;
        match find_key_position(&candidates, &program_id) {
            Some(_) => {
            },
            None => {
                candidates.push(program_id);
                proof {
                    assert(instructions@[i as int].program_id == program_id);
                    assert forall|x: int| 0 <= x < i implies candidates@.contains(
                        (#[trigger] instructions@[x]).program_id,
                    ) by {
                        assert(pre_outer.contains(instructions@[x].program_id));
                        let p = choose|p: int|
                            0 <= p < pre_outer.len() && pre_outer[p] == instructions@[x].program_id;
                        assert(candidates@[p] == instructions@[x].program_id);
                    }
                    assert forall|x: int, a: int|
                        0 <= x < i && 0 <= a < instructions@[x].accounts@.len() implies candidates@.contains(
                        (#[trigger] instructions@[x].accounts@[a]).address,
                    ) by {
                        assert(pre_outer.contains(instructions@[x].accounts@[a].address));
                        let p = choose|p: int|
                            0 <= p < pre_outer.len() && pre_outer[p]
                                == instructions@[x].accounts@[a].address;
                        assert(candidates@[p] == instructions@[x].accounts@[a].address);
                    }
                }
            },
        }
        proof {
            assert(candidates@.contains(instructions@[i as int].program_id)) by {
                if candidates@ == pre_outer {
                    let p = choose|p: int|
                        0 <= p < pre_outer.len() && pre_outer[p]
                            == instructions@[i as int].program_id;
                    assert(candidates@[p] == instructions@[i as int].program_id);
                } else {
                    assert(candidates@[candidates@.len() - 1]
                        == instructions@[i as int].program_id);
                }
            }
        }
        let accounts_len = instructions[i].accounts.len();
        let mut a: usize = 0;
        while a < accounts_len
            invariant
                0 <= a <= accounts_len,
                accounts_len == instructions@[i as int].accounts@.len(),
                0 <= i < instructions@.len(),
                candidates@.len() > 0 && candidates@[0] == payer,
                forall|p: int, q: int| 0 <= p < q < candidates@.len() ==> candidates@[p]
                    != candidates@[q],
                forall|p: int|
                    0 <= p < candidates@.len() ==> spec_key_is_referenced(
                        instructions@,
                        payer,
                        #[trigger] candidates@[p],
                    ),
                forall|x: int|
                    0 <= x < i ==> candidates@.contains((#[trigger] instructions@[x]).program_id),
                forall|x: int, b: int|
                    0 <= x < i && 0 <= b < instructions@[x].accounts@.len() ==> candidates@.contains(
                        (#[trigger] instructions@[x].accounts@[b]).address,
                    ),
                candidates@.contains(instructions@[i as int].program_id),
                forall|b: int|
                    0 <= b < a ==> candidates@.contains(
                        (#[trigger] instructions@[i as int].accounts@[b]).address,
                    ),
            decreases accounts_len - a,
        {
            let ghost pre = candidates@;
            let address = instructions[i].accounts[a].address;
            match find_key_position(&candidates, &address) {
                Some(_) => {
                },
                None => {
                    candidates.push(address);
                    proof {
                        assert forall|x: int, b: int|
                            (0 <= x < i && 0 <= b < instructions@[x].accounts@.len()) || (x == i
                                && 0 <= b < a) implies candidates@.contains(
                            (#[trigger] instructions@[x].accounts@[b]).address,
                        ) by {
                            assert(pre.contains(instructions@[x].accounts@[b].address));
                            let p = choose|p: int|
                                0 <= p < pre.len() && pre[p]
                                    == instructions@[x].accounts@[b].address;
                            assert(candidates@[p] == instructions@[x].accounts@[b].address);
                        }
                        assert forall|x: int| 0 <= x < i implies candidates@.contains(
                            (#[trigger] instructions@[x]).program_id,
                        ) by {
                            assert(pre.contains(instructions@[x].program_id));
                            let p = choose|p: int|
                                0 <= p < pre.len() && pre[p] == instructions@[x].program_id;
                            assert(candidates@[p] == instructions@[x].program_id);
                        }
                        assert(candidates@.contains(instructions@[i as int].program_id)) by {
                            let p = choose|p: int|
                                0 <= p < pre.len() && pre[p]
                                    == instructions@[i as int].program_id;
                            assert(candidates@[p] == instructions@[i as int].program_id);
                        }
                    }
                },
            }
            proof {
                assert(candidates@.contains(instructions@[i as int].accounts@[a as int].address))
                    by {
                    if candidates@ == pre {
                        let p = choose|p: int|
                            0 <= p < pre.len() && pre[p]
                                == instructions@[i as int].accounts@[a as int].address;
                        assert(candidates@[p]
                            == instructions@[i as int].accounts@[a as int].address);
                    } else {
                        assert(candidates@[candidates@.len() - 1]
                            == instructions@[i as int].accounts@[a as int].address);
                    }
                }
            }
            a = a + 1;
        }
        i = i + 1;
    }
    proof {
        assert forall|k: Address| spec_key_is_referenced(instructions@, payer, k) implies
            #[trigger] candidates@.contains(k) by {
            if k == payer {
                assert(candidates@[0] == k);
            } else if exists|x: int|
                0 <= x < instructions@.len() && (#[trigger] instructions@[x]).program_id == k {
                let x = choose|x: int|
                    0 <= x < instructions@.len() && (#[trigger] instructions@[x]).program_id == k;
                assert(candidates@.contains(instructions@[x].program_id));
            } else {
                let (x, b): (int, int) = choose|x: int, b: int|
                    0 <= x < instructions@.len() && 0 <= b < instructions@[x].accounts@.len() && (
                    #[trigger] instructions@[x].accounts@[b]).address == k;
                assert(candidates@.contains(instructions@[x].accounts@[b].address));
            }
        }
        // Every signer is referenced, so signer-set bounds can be read
        // off the candidate groups below.
        assert forall|k: Address| spec_key_is_signer(instructions@, payer, k) implies
            spec_key_is_referenced(instructions@, payer, k) by {
            if k != payer {
                let (x, b): (int, int) = choose|x: int, b: int|
                    0 <= x < instructions@.len() && 0 <= b < instructions@[x].accounts@.len() && (
                    #[trigger] instructions@[x].accounts@[b]).is_signer
                        && instructions@[x].accounts@[b].address == k;
                assert(instructions@[x].accounts@[b].address == k);
            }
        }
        // The candidate list enumerates the referenced key set.
        assert forall|p: int, q: int|
            0 <= p < candidates@.len() && 0 <= q < candidates@.len() && p != q implies candidates@[p]
            != candidates@[q] by {
            if p < q {
            } else {
                assert(candidates@[q] != candidates@[p]);
            }
        }
        assert(candidates@.no_duplicates());
        candidates@.unique_seq_to_set();
        assert(candidates@.to_set() =~= spec_referenced_key_set(instructions@, payer));
        assert(candidates@.len() == spec_referenced_key_set(instructions@, payer).len());
    }
    if candidates.len() > 256 {
        return Err(ClientError::Compile { error: CompileFailure::TooManyKeys });
    }
    // Partition into the four header sections.
    let mut writable_signers: Vec<Address> = Vec::new();
    let mut readonly_signers: Vec<Address> = Vec::new();
    let mut writable_others: Vec<Address> = Vec::new();
    let mut readonly_others: Vec<Address> = Vec::new();
    let mut j: usize = 0;
    while j < candidates.len()
        invariant
            0 <= j <= candidates@.len(),
            forall|p: int|
                0 <= p < writable_signers@.len() ==> candidates@.subrange(0, j as int).contains(
                    #[trigger] writable_signers@[p],
                ) && spec_key_is_signer(instructions@, payer, writable_signers@[p])
                    && spec_key_is_writable(instructions@, payer, writable_signers@[p]),
            forall|p: int|
                0 <= p < readonly_signers@.len() ==> candidates@.subrange(0, j as int).contains(
                    #[trigger] readonly_signers@[p],
                ) && spec_key_is_signer(instructions@, payer, readonly_signers@[p])
                    && !spec_key_is_writable(instructions@, payer, readonly_signers@[p]),
            forall|p: int|
                0 <= p < writable_others@.len() ==> candidates@.subrange(0, j as int).contains(
                    #[trigger] writable_others@[p],
                ) && !spec_key_is_signer(instructions@, payer, writable_others@[p])
                    && spec_key_is_writable(instructions@, payer, writable_others@[p]),
            forall|p: int|
                0 <= p < readonly_others@.len() ==> candidates@.subrange(0, j as int).contains(
                    #[trigger] readonly_others@[p],
                ) && !spec_key_is_signer(instructions@, payer, readonly_others@[p])
                    && !spec_key_is_writable(instructions@, payer, readonly_others@[p]),
            forall|p: int, q: int| 0 <= p < q < writable_signers@.len() ==> writable_signers@[p]
                != writable_signers@[q],
            forall|p: int, q: int| 0 <= p < q < readonly_signers@.len() ==> readonly_signers@[p]
                != readonly_signers@[q],
            forall|p: int, q: int| 0 <= p < q < writable_others@.len() ==> writable_others@[p]
                != writable_others@[q],
            forall|p: int, q: int| 0 <= p < q < readonly_others@.len() ==> readonly_others@[p]
                != readonly_others@[q],
            forall|x: int|
                0 <= x < j ==> (writable_signers@.contains(#[trigger] candidates@[x])
                    || readonly_signers@.contains(candidates@[x]) || writable_others@.contains(
                    candidates@[x],
                ) || readonly_others@.contains(candidates@[x])),
            j > 0 ==> writable_signers@.len() > 0 && writable_signers@[0] == payer,
            writable_signers@.len() + readonly_signers@.len() + writable_others@.len()
                + readonly_others@.len() == j,
        decreases candidates@.len() - j,
    {
        let key = candidates[j];
        let ghost pre_ws = writable_signers@;
        let ghost pre_rs = readonly_signers@;
        let ghost pre_wo = writable_others@;
        let ghost pre_ro = readonly_others@;
        let is_signer = key_is_signer(instructions, &payer, &key);
        let is_writable = key_is_writable(instructions, &payer, &key);
        proof {
            assert(candidates@.subrange(0, j as int + 1).drop_last() =~= candidates@.subrange(
                0,
                j as int,
            ));
            // The key is new to every group: groups hold only earlier
            // candidates, all distinct from this one.
            assert(!candidates@.subrange(0, j as int).contains(key)) by {
                if candidates@.subrange(0, j as int).contains(key) {
                    let p = choose|p: int|
                        0 <= p < j && candidates@.subrange(0, j as int)[p] == key;
                    assert(candidates@[p] == candidates@[j as int]);
                }
            }
        }
        if is_signer {
            if is_writable {
                writable_signers.push(key);
            } else {
                readonly_signers.push(key);
            }
        } else {
            if is_writable {
                writable_others.push(key);
            } else {
                readonly_others.push(key);
            }
        }
        proof {
            let sub = candidates@.subrange(0, j as int + 1);
            assert(sub.last() == key);
            assert forall|p: int| 0 <= p < writable_signers@.len() implies sub.contains(
                #[trigger] writable_signers@[p],
            ) by {
                if p < pre_ws.len() {
                    let q = choose|q: int|
                        0 <= q < j && candidates@.subrange(0, j as int)[q] == pre_ws[p];
                    assert(sub[q] == writable_signers@[p]);
                } else {
                    assert(sub[j as int] == key);
                }
            }
            assert forall|p: int| 0 <= p < readonly_signers@.len() implies sub.contains(
                #[trigger] readonly_signers@[p],
            ) by {
                if p < pre_rs.len() {
                    let q = choose|q: int|
                        0 <= q < j && candidates@.subrange(0, j as int)[q] == pre_rs[p];
                    assert(sub[q] == readonly_signers@[p]);
                } else {
                    assert(sub[j as int] == key);
                }
            }
            assert forall|p: int| 0 <= p < writable_others@.len() implies sub.contains(
                #[trigger] writable_others@[p],
            ) by {
                if p < pre_wo.len() {
                    let q = choose|q: int|
                        0 <= q < j && candidates@.subrange(0, j as int)[q] == pre_wo[p];
                    assert(sub[q] == writable_others@[p]);
                } else {
                    assert(sub[j as int] == key);
                }
            }
            assert forall|p: int| 0 <= p < readonly_others@.len() implies sub.contains(
                #[trigger] readonly_others@[p],
            ) by {
                if p < pre_ro.len() {
                    let q = choose|q: int|
                        0 <= q < j && candidates@.subrange(0, j as int)[q] == pre_ro[p];
                    assert(sub[q] == readonly_others@[p]);
                } else {
                    assert(sub[j as int] == key);
                }
            }
            assert forall|x: int| 0 <= x < j + 1 implies (writable_signers@.contains(
                #[trigger] candidates@[x],
            ) || readonly_signers@.contains(candidates@[x]) || writable_others@.contains(
                candidates@[x],
            ) || readonly_others@.contains(candidates@[x])) by {
                if x < j {
                    if pre_ws.contains(candidates@[x]) {
                        let p = choose|p: int| 0 <= p < pre_ws.len() && pre_ws[p] == candidates@[x];
                        assert(writable_signers@[p] == candidates@[x]);
                    } else if pre_rs.contains(candidates@[x]) {
                        let p = choose|p: int| 0 <= p < pre_rs.len() && pre_rs[p] == candidates@[x];
                        assert(readonly_signers@[p] == candidates@[x]);
                    } else if pre_wo.contains(candidates@[x]) {
                        let p = choose|p: int| 0 <= p < pre_wo.len() && pre_wo[p] == candidates@[x];
                        assert(writable_others@[p] == candidates@[x]);
                    } else {
                        let p = choose|p: int| 0 <= p < pre_ro.len() && pre_ro[p] == candidates@[x];
                        assert(readonly_others@[p] == candidates@[x]);
                    }
                } else {
                    if is_signer && is_writable {
                        assert(writable_signers@[writable_signers@.len() - 1] == key);
                    } else if is_signer {
                        assert(readonly_signers@[readonly_signers@.len() - 1] == key);
                    } else if is_writable {
                        assert(writable_others@[writable_others@.len() - 1] == key);
                    } else {
                        assert(readonly_others@[readonly_others@.len() - 1] == key);
                    }
                }
            }
            if j == 0 {
                assert(key == payer);
                assert(spec_key_is_signer(instructions@, payer, key));
                assert(spec_key_is_writable(instructions@, payer, key));
                assert(writable_signers@[0] == payer);
            }
        }
        j = j + 1;
    }
    let ghost g_ws = writable_signers@;
    let ghost g_rs = readonly_signers@;
    let ghost g_wo = writable_others@;
    let ghost g_ro = readonly_others@;
    proof {
        assert(candidates@.subrange(0, candidates@.len() as int) =~= candidates@);
        // Group membership characterizes each flag set, so the group
        // counts are the set cardinalities.
        assert forall|k: Address| (g_ws + g_rs).contains(k) implies #[trigger] spec_key_is_signer(
            instructions@,
            payer,
            k,
        ) by {
            let p = choose|p: int| 0 <= p < (g_ws + g_rs).len() && (g_ws + g_rs)[p] == k;
            if p < g_ws.len() {
                assert(g_ws[p] == k);
            } else {
                assert(g_rs[p - g_ws.len()] == k);
            }
        }
        assert forall|k: Address| #[trigger] spec_key_is_signer(instructions@, payer, k) implies (
        g_ws + g_rs).contains(k) by {
            assert(candidates@.contains(k));
            let x = choose|x: int| 0 <= x < candidates@.len() && candidates@[x] == k;
            if g_ws.contains(candidates@[x]) {
                let p = choose|p: int| 0 <= p < g_ws.len() && g_ws[p] == k;
                assert((g_ws + g_rs)[p] == k);
            } else if g_rs.contains(candidates@[x]) {
                let p = choose|p: int| 0 <= p < g_rs.len() && g_rs[p] == k;
                assert((g_ws + g_rs)[g_ws.len() + p] == k);
            } else if g_wo.contains(candidates@[x]) {
                let p = choose|p: int| 0 <= p < g_wo.len() && g_wo[p] == k;
                assert(!spec_key_is_signer(instructions@, payer, g_wo[p]));
            } else {
                let p = choose|p: int| 0 <= p < g_ro.len() && g_ro[p] == k;
                assert(!spec_key_is_signer(instructions@, payer, g_ro[p]));
            }
        }
        assert forall|p: int, q: int|
            0 <= p < (g_ws + g_rs).len() && 0 <= q < (g_ws + g_rs).len() && p != q implies (g_ws
            + g_rs)[p] != (g_ws + g_rs)[q] by {}
        assert((g_ws + g_rs).no_duplicates());
        (g_ws + g_rs).unique_seq_to_set();
        assert((g_ws + g_rs).to_set() =~= spec_signer_key_set(instructions@, payer));
        assert(g_ws.len() + g_rs.len() == spec_signer_key_set(instructions@, payer).len());
        // Read-only signers.
        assert forall|k: Address| #[trigger] spec_key_is_signer(instructions@, payer, k)
            && !spec_key_is_writable(instructions@, payer, k) implies g_rs.contains(k) by {
            assert(candidates@.contains(k));
            let x = choose|x: int| 0 <= x < candidates@.len() && candidates@[x] == k;
            if g_ws.contains(candidates@[x]) {
                let p = choose|p: int| 0 <= p < g_ws.len() && g_ws[p] == k;
                assert(spec_key_is_writable(instructions@, payer, g_ws[p]));
            } else if g_rs.contains(candidates@[x]) {
            } else if g_wo.contains(candidates@[x]) {
                let p = choose|p: int| 0 <= p < g_wo.len() && g_wo[p] == k;
                assert(!spec_key_is_signer(instructions@, payer, g_wo[p]));
            } else {
                let p = choose|p: int| 0 <= p < g_ro.len() && g_ro[p] == k;
                assert(!spec_key_is_signer(instructions@, payer, g_ro[p]));
            }
        }
        assert forall|p: int, q: int|
            0 <= p < g_rs.len() && 0 <= q < g_rs.len() && p != q implies g_rs[p] != g_rs[q] by {}
        assert(g_rs.no_duplicates());
        g_rs.unique_seq_to_set();
        assert(g_rs.to_set() =~= spec_readonly_signer_key_set(instructions@, payer));
        assert(g_rs.len() == spec_readonly_signer_key_set(instructions@, payer).len());
        // Read-only non-signers.
        assert forall|k: Address| #[trigger] spec_key_is_referenced(instructions@, payer, k)
            && !spec_key_is_signer(instructions@, payer, k) && !spec_key_is_writable(
            instructions@,
            payer,
            k,
        ) implies g_ro.contains(k) by {
            assert(candidates@.contains(k));
            let x = choose|x: int| 0 <= x < candidates@.len() && candidates@[x] == k;
            if g_ws.contains(candidates@[x]) {
                let p = choose|p: int| 0 <= p < g_ws.len() && g_ws[p] == k;
                assert(spec_key_is_signer(instructions@, payer, g_ws[p]));
            } else if g_rs.contains(candidates@[x]) {
                let p = choose|p: int| 0 <= p < g_rs.len() && g_rs[p] == k;
                assert(spec_key_is_signer(instructions@, payer, g_rs[p]));
            } else if g_wo.contains(candidates@[x]) {
                let p = choose|p: int| 0 <= p < g_wo.len() && g_wo[p] == k;
                assert(spec_key_is_writable(instructions@, payer, g_wo[p]));
            } else {
            }
        }
        assert forall|p: int, q: int|
            0 <= p < g_ro.len() && 0 <= q < g_ro.len() && p != q implies g_ro[p] != g_ro[q] by {}
        assert(g_ro.no_duplicates());
        g_ro.unique_seq_to_set();
        assert(g_ro.to_set() =~= spec_readonly_other_key_set(instructions@, payer));
        assert(g_ro.len() == spec_readonly_other_key_set(instructions@, payer).len());
    }
    let num_readonly_signers = readonly_signers.len();
    let num_signers = writable_signers.len() + num_readonly_signers;
    if num_signers > 255 || num_readonly_signers > 255 || readonly_others.len() > 255 {
        return Err(ClientError::Compile { error: CompileFailure::TooManyKeys });
    }
    proof {
        assert(!spec_compile_over_limit(instructions@, payer));
    }
    // Move non-signing, non-invoked keys found in a provided table
    // into compact table references; tables claim keys in order.
    let mut remaining_wo = writable_others;
    let mut remaining_ro = readonly_others;
    let mut claimed_w: Vec<Address> = Vec::new();
    let mut claimed_r: Vec<Address> = Vec::new();
    let mut lookups: Vec<LookupTableReference> = Vec::new();
    let mut t: usize = 0;
    while t < lookup_tables.len()
        invariant
            0 <= t <= lookup_tables@.len(),
            spec_lookup_resolutions(lookups@, lookup_tables@) == Some(
                (claimed_w@, claimed_r@),
            ),
            forall|p: int| 0 <= p < remaining_wo@.len() ==> g_wo.contains(
                #[trigger] remaining_wo@[p],
            ),
            forall|p: int| 0 <= p < remaining_ro@.len() ==> g_ro.contains(
                #[trigger] remaining_ro@[p],
            ),
            forall|p: int|
                0 <= p < claimed_w@.len() ==> g_wo.contains(#[trigger] claimed_w@[p])
                    && !spec_key_is_invoked(instructions@, claimed_w@[p]),
            forall|p: int|
                0 <= p < claimed_r@.len() ==> g_ro.contains(#[trigger] claimed_r@[p])
                    && !spec_key_is_invoked(instructions@, claimed_r@[p]),
            forall|p: int, q: int| 0 <= p < q < remaining_wo@.len() ==> remaining_wo@[p]
                != remaining_wo@[q],
            forall|p: int, q: int| 0 <= p < q < remaining_ro@.len() ==> remaining_ro@[p]
                != remaining_ro@[q],
            forall|p: int, q: int| 0 <= p < q < claimed_w@.len() ==> claimed_w@[p]
                != claimed_w@[q],
            forall|p: int, q: int| 0 <= p < q < claimed_r@.len() ==> claimed_r@[p]
                != claimed_r@[q],
            forall|p: int, q: int|
                0 <= p < remaining_wo@.len() && 0 <= q < claimed_w@.len() ==> remaining_wo@[p]
                    != claimed_w@[q],
            forall|p: int, q: int|
                0 <= p < remaining_ro@.len() && 0 <= q < claimed_r@.len() ==> remaining_ro@[p]
                    != claimed_r@[q],
            forall|k: Address|
                #[trigger] g_wo.contains(k) ==> remaining_wo@.contains(k) || claimed_w@.contains(
                    k,
                ),
            forall|k: Address|
                #[trigger] g_ro.contains(k) ==> remaining_ro@.contains(k) || claimed_r@.contains(
                    k,
                ),
        decreases lookup_tables@.len() - t,
    {
        let ghost pre_lookups = lookups@;
        let ghost pre_cw = claimed_w@;
        let ghost pre_cr = claimed_r@;
        let ghost pre_rw = remaining_wo@;
        let ghost pre_rr = remaining_ro@;
        let table = &lookup_tables[t];
        let (keep_wo, w_idx, mut w_keys) = extract_from_table(
            instructions,
            &table.addresses,
            remaining_wo,
        );
        let (keep_ro, r_idx, mut r_keys) = extract_from_table(
            instructions,
            &table.addresses,
            remaining_ro,
        );
        let ghost new_w = w_keys@;
        let ghost new_r = r_keys@;
        if w_idx.len() > 0 || r_idx.len() > 0 {
            let reference = LookupTableReference {
                table_address: table.key,
                writable_indexes: w_idx,
                readonly_indexes: r_idx,
            };
            let ghost ref_view = reference;
            lookups.push(reference);
            claimed_w.append(&mut w_keys);
            claimed_r.append(&mut r_keys);
            proof {
                assert(lookups@.drop_last() =~= pre_lookups);
                assert(lookups@.last() == ref_view);
                lemma_first_table_addresses_at(lookup_tables@, t as int);
                assert(spec_first_table_addresses(lookup_tables@, ref_view.table_address)
                    == lookup_tables@[t as int].addresses@);
                assert(spec_resolve_indexes(
                    ref_view.writable_indexes@,
                    lookup_tables@[t as int].addresses@,
                ) == Some(new_w)) by {
                    assert(spec_resolve_indexes(
                        ref_view.writable_indexes@,
                        lookup_tables@[t as int].addresses@,
                    ).unwrap() =~= new_w);
                }
                assert(spec_resolve_indexes(
                    ref_view.readonly_indexes@,
                    lookup_tables@[t as int].addresses@,
                ) == Some(new_r)) by {
                    assert(spec_resolve_indexes(
                        ref_view.readonly_indexes@,
                        lookup_tables@[t as int].addresses@,
                    ).unwrap() =~= new_r);
                }
                assert(spec_lookup_resolutions(lookups@, lookup_tables@) == Some(
                    (pre_cw + new_w, pre_cr + new_r),
                ));
                assert(claimed_w@ == pre_cw + new_w);
                assert(claimed_r@ == pre_cr + new_r);
            }
        } else {
            proof {
                assert(new_w =~= Seq::<Address>::empty());
                assert(new_r =~= Seq::<Address>::empty());
            }
            claimed_w.append(&mut w_keys);
            claimed_r.append(&mut r_keys);
            proof {
                assert(claimed_w@ =~= pre_cw);
                assert(claimed_r@ =~= pre_cr);
            }
        }
        remaining_wo = keep_wo;
        remaining_ro = keep_ro;
        proof {
            // Each side keeps its membership, distinctness and
            // coverage through the split.
            assert forall|p: int| 0 <= p < remaining_wo@.len() implies g_wo.contains(
                #[trigger] remaining_wo@[p],
            ) by {
                assert(pre_rw.contains(remaining_wo@[p]));
                let q = choose|q: int| 0 <= q < pre_rw.len() && pre_rw[q] == remaining_wo@[p];
            }
            assert forall|p: int| 0 <= p < remaining_ro@.len() implies g_ro.contains(
                #[trigger] remaining_ro@[p],
            ) by {
                assert(pre_rr.contains(remaining_ro@[p]));
                let q = choose|q: int| 0 <= q < pre_rr.len() && pre_rr[q] == remaining_ro@[p];
            }
            assert forall|p: int| 0 <= p < claimed_w@.len() implies g_wo.contains(
                #[trigger] claimed_w@[p],
            ) && !spec_key_is_invoked(instructions@, claimed_w@[p]) by {
                if p < pre_cw.len() {
                    assert(claimed_w@[p] == pre_cw[p]);
                } else {
                    assert(claimed_w@[p] == new_w[p - pre_cw.len()]);
                    assert(pre_rw.contains(new_w[p - pre_cw.len()]));
                    let q = choose|q: int|
                        0 <= q < pre_rw.len() && pre_rw[q] == new_w[p - pre_cw.len()];
                }
            }
            assert forall|p: int| 0 <= p < claimed_r@.len() implies g_ro.contains(
                #[trigger] claimed_r@[p],
            ) && !spec_key_is_invoked(instructions@, claimed_r@[p]) by {
                if p < pre_cr.len() {
                    assert(claimed_r@[p] == pre_cr[p]);
                } else {
                    assert(claimed_r@[p] == new_r[p - pre_cr.len()]);
                    assert(pre_rr.contains(new_r[p - pre_cr.len()]));
                    let q = choose|q: int|
                        0 <= q < pre_rr.len() && pre_rr[q] == new_r[p - pre_cr.len()];
                }
            }
            // New claims are distinct from all earlier claims: they
            // come from the remaining pool, which was disjoint from
            // the claimed one.
            assert forall|p: int, q: int| 0 <= p < q < claimed_w@.len() implies claimed_w@[p]
                != claimed_w@[q] by {
                if p < pre_cw.len() && q >= pre_cw.len() {
                    assert(pre_rw.contains(new_w[q - pre_cw.len()]));
                    let y = choose|y: int|
                        0 <= y < pre_rw.len() && pre_rw[y] == new_w[q - pre_cw.len()];
                    assert(pre_rw[y] != pre_cw[p]);
                }
            }
            assert forall|p: int, q: int| 0 <= p < q < claimed_r@.len() implies claimed_r@[p]
                != claimed_r@[q] by {
                if p < pre_cr.len() && q >= pre_cr.len() {
                    assert(pre_rr.contains(new_r[q - pre_cr.len()]));
                    let y = choose|y: int|
                        0 <= y < pre_rr.len() && pre_rr[y] == new_r[q - pre_cr.len()];
                    assert(pre_rr[y] != pre_cr[p]);
                }
            }
            assert forall|p: int, q: int|
                0 <= p < remaining_wo@.len() && 0 <= q < claimed_w@.len() implies remaining_wo@[p]
                != claimed_w@[q] by {
                assert(pre_rw.contains(remaining_wo@[p]));
                let y = choose|y: int| 0 <= y < pre_rw.len() && pre_rw[y] == remaining_wo@[p];
                if q < pre_cw.len() {
                    assert(pre_rw[y] != pre_cw[q]);
                } else {
                    assert(claimed_w@[q] == new_w[q - pre_cw.len()]);
                }
            }
            assert forall|p: int, q: int|
                0 <= p < remaining_ro@.len() && 0 <= q < claimed_r@.len() implies remaining_ro@[p]
                != claimed_r@[q] by {
                assert(pre_rr.contains(remaining_ro@[p]));
                let y = choose|y: int| 0 <= y < pre_rr.len() && pre_rr[y] == remaining_ro@[p];
                if q < pre_cr.len() {
                    assert(pre_rr[y] != pre_cr[q]);
                } else {
                    assert(claimed_r@[q] == new_r[q - pre_cr.len()]);
                }
            }
            assert forall|k: Address| #[trigger] g_wo.contains(k) implies remaining_wo@.contains(k)
                || claimed_w@.contains(k) by {
                if pre_rw.contains(k) {
                    if remaining_wo@.contains(k) {
                    } else {
                        assert(new_w.contains(k) || remaining_wo@.contains(k));
                        let p = choose|p: int| 0 <= p < new_w.len() && new_w[p] == k;
                        assert(claimed_w@[pre_cw.len() + p] == k);
                    }
                } else {
                    assert(pre_cw.contains(k));
                    let p = choose|p: int| 0 <= p < pre_cw.len() && pre_cw[p] == k;
                    assert(claimed_w@[p] == k);
                }
            }
            assert forall|k: Address| #[trigger] g_ro.contains(k) implies remaining_ro@.contains(k)
                || claimed_r@.contains(k) by {
                if pre_rr.contains(k) {
                    if remaining_ro@.contains(k) {
                    } else {
                        assert(new_r.contains(k) || remaining_ro@.contains(k));
                        let p = choose|p: int| 0 <= p < new_r.len() && new_r[p] == k;
                        assert(claimed_r@[pre_cr.len() + p] == k);
                    }
                } else {
                    assert(pre_cr.contains(k));
                    let p = choose|p: int| 0 <= p < pre_cr.len() && pre_cr[p] == k;
                    assert(claimed_r@[p] == k);
                }
            }
        }
        t = t + 1;
    }
    // Assemble the static list and the full key space the instructions
    // index into: static keys, then the claimed writable keys, then
    // the claimed read-only keys — the order the sanitizer reproduces.
    let mut static_keys = writable_signers;
    let mut rs = readonly_signers;
    let mut kwo = remaining_wo;
    let mut kro = remaining_ro;
    let ghost s_ws = static_keys@;
    let ghost s_rs = rs@;
    let ghost s_wo = kwo@;
    let ghost s_ro = kro@;
    let num_readonly_unsigned = kro.len();
    static_keys.append(&mut rs);
    static_keys.append(&mut kwo);
    static_keys.append(&mut kro);
    let ghost statics = static_keys@;
    let mut key_space = slice_to_vec(static_keys.as_slice());
    let mut cw_copy = slice_to_vec(claimed_w.as_slice());
    let mut cr_copy = slice_to_vec(claimed_r.as_slice());
    key_space.append(&mut cw_copy);
    key_space.append(&mut cr_copy);
    let ghost keys = key_space@;
    proof {
        assert(statics =~= s_ws + s_rs + s_wo + s_ro);
        assert(keys =~= statics + claimed_w@ + claimed_r@);
        // Where each position of the key space comes from.
        assert forall|p: int| 0 <= p < keys.len() implies (
            if p < s_ws.len() {
                keys[p] == s_ws[p]
            } else if p < s_ws.len() + s_rs.len() {
                keys[p] == s_rs[p - s_ws.len()]
            } else if p < s_ws.len() + s_rs.len() + s_wo.len() {
                keys[p] == s_wo[p - s_ws.len() - s_rs.len()]
            } else if p < statics.len() {
                keys[p] == s_ro[p - s_ws.len() - s_rs.len() - s_wo.len()]
            } else if p < statics.len() + claimed_w@.len() {
                keys[p] == claimed_w@[p - statics.len()]
            } else {
                keys[p] == claimed_r@[p - statics.len() - claimed_w@.len()]
            }) by {}
        // Flags per segment, lifting remaining/claimed membership back
        // to the partition groups.
        assert forall|p: int| 0 <= p < s_wo.len() implies !spec_key_is_signer(
            instructions@,
            payer,
            #[trigger] s_wo[p],
        ) && spec_key_is_writable(instructions@, payer, s_wo[p]) && g_wo.contains(s_wo[p]) by {
            let q = choose|q: int| 0 <= q < g_wo.len() && g_wo[q] == s_wo[p];
        }
        assert forall|p: int| 0 <= p < s_ro.len() implies !spec_key_is_signer(
            instructions@,
            payer,
            #[trigger] s_ro[p],
        ) && !spec_key_is_writable(instructions@, payer, s_ro[p]) && g_ro.contains(s_ro[p]) by {
            let q = choose|q: int| 0 <= q < g_ro.len() && g_ro[q] == s_ro[p];
        }
        assert forall|p: int| 0 <= p < claimed_w@.len() implies !spec_key_is_signer(
            instructions@,
            payer,
            #[trigger] claimed_w@[p],
        ) && spec_key_is_writable(instructions@, payer, claimed_w@[p]) by {
            let q = choose|q: int| 0 <= q < g_wo.len() && g_wo[q] == claimed_w@[p];
        }
        assert forall|p: int| 0 <= p < claimed_r@.len() implies !spec_key_is_signer(
            instructions@,
            payer,
            #[trigger] claimed_r@[p],
        ) && !spec_key_is_writable(instructions@, payer, claimed_r@[p]) by {
            let q = choose|q: int| 0 <= q < g_ro.len() && g_ro[q] == claimed_r@[p];
        }
        // A kept pool and its claims split their group exactly, so the
        // key space is no longer than the candidate list.
        assert forall|p: int, q: int|
            0 <= p < (s_wo + claimed_w@).len() && 0 <= q < (s_wo + claimed_w@).len() && p
            != q implies (s_wo + claimed_w@)[p] != (s_wo + claimed_w@)[q] by {}
        assert((s_wo + claimed_w@).no_duplicates());
        (s_wo + claimed_w@).unique_seq_to_set();
        g_wo.unique_seq_to_set();
        assert((s_wo + claimed_w@).to_set() =~= g_wo.to_set()) by {
            assert forall|k: Address| (s_wo + claimed_w@).contains(k) implies g_wo.contains(
                k,
            ) by {
                let p = choose|p: int|
                    0 <= p < (s_wo + claimed_w@).len() && (s_wo + claimed_w@)[p] == k;
            }
            assert forall|k: Address| g_wo.contains(k) implies (s_wo + claimed_w@).contains(
                k,
            ) by {
                if s_wo.contains(k) {
                    let p = choose|p: int| 0 <= p < s_wo.len() && s_wo[p] == k;
                    assert((s_wo + claimed_w@)[p] == k);
                } else {
                    assert(claimed_w@.contains(k));
                    let p = choose|p: int| 0 <= p < claimed_w@.len() && claimed_w@[p] == k;
                    assert((s_wo + claimed_w@)[s_wo.len() + p] == k);
                }
            }
        }
        assert(s_wo.len() + claimed_w@.len() == g_wo.len());
        assert forall|p: int, q: int|
            0 <= p < (s_ro + claimed_r@).len() && 0 <= q < (s_ro + claimed_r@).len() && p
            != q implies (s_ro + claimed_r@)[p] != (s_ro + claimed_r@)[q] by {}
        assert((s_ro + claimed_r@).no_duplicates());
        (s_ro + claimed_r@).unique_seq_to_set();
        g_ro.unique_seq_to_set();
        assert((s_ro + claimed_r@).to_set() =~= g_ro.to_set()) by {
            assert forall|k: Address| (s_ro + claimed_r@).contains(k) implies g_ro.contains(
                k,
            ) by {
                let p = choose|p: int|
                    0 <= p < (s_ro + claimed_r@).len() && (s_ro + claimed_r@)[p] == k;
            }
            assert forall|k: Address| g_ro.contains(k) implies (s_ro + claimed_r@).contains(
                k,
            ) by {
                if s_ro.contains(k) {
                    let p = choose|p: int| 0 <= p < s_ro.len() && s_ro[p] == k;
                    assert((s_ro + claimed_r@)[p] == k);
                } else {
                    assert(claimed_r@.contains(k));
                    let p = choose|p: int| 0 <= p < claimed_r@.len() && claimed_r@[p] == k;
                    assert((s_ro + claimed_r@)[s_ro.len() + p] == k);
                }
            }
        }
        assert(s_ro.len() + claimed_r@.len() == g_ro.len());
        assert(keys.len() == candidates@.len());
        // Distinctness across the whole key space: within a segment by
        // its own distinctness, across segments by differing flags, and
        // between a kept key and a claimed one because claiming removed
        // it from the pool.
        assert forall|p: int, q: int| 0 <= p < q < keys.len() implies keys[p] != keys[q] by {}
        // The key space holds exactly the referenced keys.
        assert forall|k: Address| #[trigger] keys.contains(k) implies candidates@.contains(k) by {
            let p = choose|p: int| 0 <= p < keys.len() && keys[p] == k;
            if p < s_ws.len() {
                let q = choose|q: int| 0 <= q < candidates@.len() && candidates@[q] == s_ws[p];
                assert(candidates@[q] == k);
            } else if p < s_ws.len() + s_rs.len() {
                let q = choose|q: int|
                    0 <= q < candidates@.len() && candidates@[q] == s_rs[p - s_ws.len()];
                assert(candidates@[q] == k);
            } else if p < s_ws.len() + s_rs.len() + s_wo.len() || (statics.len() <= p
                < statics.len() + claimed_w@.len()) {
                assert(g_wo.contains(keys[p]));
                let y = choose|y: int| 0 <= y < g_wo.len() && g_wo[y] == keys[p];
                let q = choose|q: int| 0 <= q < candidates@.len() && candidates@[q] == g_wo[y];
                assert(candidates@[q] == k);
            } else {
                assert(g_ro.contains(keys[p]));
                let y = choose|y: int| 0 <= y < g_ro.len() && g_ro[y] == keys[p];
                let q = choose|q: int| 0 <= q < candidates@.len() && candidates@[q] == g_ro[y];
                assert(candidates@[q] == k);
            }
        }
        assert forall|k: Address| candidates@.contains(k) implies #[trigger] keys.contains(k) by {
            let x = choose|x: int| 0 <= x < candidates@.len() && candidates@[x] == k;
            if s_ws.contains(k) {
                let p = choose|p: int| 0 <= p < s_ws.len() && s_ws[p] == k;
                assert(keys[p] == k);
            } else if s_rs.contains(k) {
                let p = choose|p: int| 0 <= p < s_rs.len() && s_rs[p] == k;
                assert(keys[s_ws.len() + p] == k);
            } else if g_wo.contains(k) {
                if s_wo.contains(k) {
                    let p = choose|p: int| 0 <= p < s_wo.len() && s_wo[p] == k;
                    assert(keys[s_ws.len() + s_rs.len() + p] == k);
                } else {
                    assert(claimed_w@.contains(k));
                    let p = choose|p: int| 0 <= p < claimed_w@.len() && claimed_w@[p] == k;
                    assert(keys[statics.len() + p] == k);
                }
            } else {
                assert(g_ro.contains(k));
                if s_ro.contains(k) {
                    let p = choose|p: int| 0 <= p < s_ro.len() && s_ro[p] == k;
                    assert(keys[s_ws.len() + s_rs.len() + s_wo.len() + p] == k);
                } else {
                    assert(claimed_r@.contains(k));
                    let p = choose|p: int| 0 <= p < claimed_r@.len() && claimed_r@[p] == k;
                    assert(keys[statics.len() + claimed_w@.len() + p] == k);
                }
            }
        }
        // Positional flags: signers fill the first two segments,
        // writable keys lead each section, claimed keys trail.
        assert(s_ws.len() > 0 && keys[0] == payer && statics[0] == payer);
        assert forall|p: int| 0 <= p < keys.len() implies ((p < s_ws.len() + s_rs.len())
            <==> spec_key_is_signer(instructions@, payer, #[trigger] keys[p])) by {}
        assert forall|p: int| 0 <= p < s_ws.len() + s_rs.len() implies ((p < s_ws.len())
            <==> spec_key_is_writable(instructions@, payer, #[trigger] keys[p])) by {}
        assert forall|p: int|
            s_ws.len() + s_rs.len() <= p < statics.len() implies ((p < statics.len()
            - s_ro.len()) <==> spec_key_is_writable(instructions@, payer, #[trigger] keys[p]))
            by {}
    }
    // Signatures: one per distinct required signer, in key order.
    let mut signatures: Vec<Signature> = Vec::new();
    let mut s: usize = 0;
    while s < num_signers
        invariant
            0 <= s <= num_signers,
            num_signers <= static_keys@.len(),
            static_keys@ == statics,
            key_space@ == keys,
            signatures@.len() == s,
            forall|j2: int|
                0 <= j2 < s ==> spec_signature_for(signers@, keys[j2]) == Some(
                    #[trigger] signatures@[j2],
                ),
            forall|j2: int|
                0 <= j2 < keys.len() ==> ((j2 < num_signers) <==> spec_key_is_signer(
                    instructions@,
                    payer,
                    #[trigger] keys[j2],
                )),
        decreases num_signers - s,
    {
        match signature_for(signers, &static_keys[s]) {
            Some(sig) => {
                signatures.push(sig);
            },
            None => {
                proof {
                    assert(keys[s as int] == statics[s as int]);
                }
                return Err(
                    ClientError::Compile {
                        error: CompileFailure::MissingSignature { address: static_keys[s] },
                    },
                );
            },
        }
        s = s + 1;
    }
    proof {
        // Every required signer offered a signature.
        assert forall|k: Address| spec_key_is_signer(instructions@, payer, k) implies
            #[trigger] spec_signature_for(signers@, k) is Some by {
            assert(keys.contains(k));
            let j2 = choose|j2: int| 0 <= j2 < keys.len() && keys[j2] == k;
            assert(j2 < num_signers);
            assert(spec_signature_for(signers@, keys[j2]) == Some(signatures@[j2]));
        }
    }
    // Index every instruction into the key space.
    let mut compiled: Vec<CompiledInstruction> = Vec::new();
    let mut ii: usize = 0;
    while ii < instructions.len()
        invariant
            0 <= ii <= instructions@.len(),
            key_space@ == keys,
            keys.len() <= 256,
            forall|k: Address|
                #[trigger] keys.contains(k) <==> spec_key_is_referenced(instructions@, payer, k),
            compiled@.len() == ii,
            forall|i2: int|
                0 <= i2 < ii ==> {
                    let ci = #[trigger] compiled@[i2];
                    let src = instructions@[i2];
                    &&& ci.program_id_index < keys.len()
                    &&& keys[ci.program_id_index as int] == src.program_id
                    &&& ci.account_indexes@.len() == src.accounts@.len()
                    &&& forall|a2: int|
                        0 <= a2 < src.accounts@.len() ==> (#[trigger] ci.account_indexes@[a2])
                            < keys.len() && keys[ci.account_indexes@[a2] as int]
                            == src.accounts@[a2].address
                    &&& ci.data@ == src.data@
                },
        decreases instructions@.len() - ii,
    {
        let program_id = instructions[ii].program_id;
        proof {
            assert(spec_key_is_referenced(instructions@, payer, program_id)) by {
                assert(instructions@[ii as int].program_id == program_id);
            }
        }
        let program_id_index: u8 = match find_key_position(&key_space, &program_id) {
            Some(p) => p as u8,
            None => {
                proof {
                    assert(false);
                }
                return Err(ClientError::Compile { error: CompileFailure::TooManyKeys });
            },
        };
        let accounts_len = instructions[ii].accounts.len();
        let mut account_indexes: Vec<u8> = Vec::new();
        let mut aa: usize = 0;
        while aa < accounts_len
            invariant
                0 <= aa <= accounts_len,
                accounts_len == instructions@[ii as int].accounts@.len(),
                0 <= ii < instructions@.len(),
                key_space@ == keys,
                keys.len() <= 256,
                forall|k: Address|
                    #[trigger] keys.contains(k) <==> spec_key_is_referenced(
                        instructions@,
                        payer,
                        k,
                    ),
                account_indexes@.len() == aa,
                forall|a2: int|
                    0 <= a2 < aa ==> (#[trigger] account_indexes@[a2]) < keys.len()
                        && keys[account_indexes@[a2] as int]
                        == instructions@[ii as int].accounts@[a2].address,
            decreases accounts_len - aa,
        {
            let address = instructions[ii].accounts[aa].address;
            proof {
                assert(spec_key_is_referenced(instructions@, payer, address)) by {
                    assert(instructions@[ii as int].accounts@[aa as int].address == address);
                }
            }
            match find_key_position(&key_space, &address) {
                Some(p) => {
                    account_indexes.push(p as u8);
                },
                None => {
                    proof {
                        assert(false);
                    }
                    return Err(ClientError::Compile { error: CompileFailure::TooManyKeys });
                },
            }
            aa = aa + 1;
        }
        let data = slice_to_vec(instructions[ii].data.as_slice());
        compiled.push(CompiledInstruction { program_id_index, account_indexes, data });
        ii = ii + 1;
    }
    let header = MessageHeader {
        num_required_signatures: num_signers as u8,
        num_readonly_signed: num_readonly_signers as u8,
        num_readonly_unsigned: num_readonly_unsigned as u8,
    };
    let tx = VersionedTransaction {
        signatures,
        header,
        static_keys,
        recent_blockhash,
        instructions: compiled,
        lookups,
    };
    proof {
        let resolutions = spec_lookup_resolutions(tx.lookups@, lookup_tables@);
        assert(resolutions == Some((claimed_w@, claimed_r@)));
        assert(tx.static_keys@ + resolutions.unwrap().0 + resolutions.unwrap().1 =~= keys);
    }
    Ok(tx)
}

/// Compiling a transaction against the backend's latest blockhash.
pub trait CompileTransaction: Client + GetLatestBlockhash {
    /// Fetches the latest blockhash and compiles `instructions` into a
    /// signed transaction; repeated signer keys are deduplicated before
    /// signing, and non-signing keys found in the provided lookup
    /// tables are compressed into table references. The success case
    /// restates the full compilation contract of
    /// [`compile_transaction_with_blockhash`] against the fetched
    /// blockhash.
    fn compile_transaction(
        &self,
        instructions: &Vec<Instruction>,
        payer: Address,
        signers: &Vec<(Address, Signature)>,
        lookup_tables: &Vec<AddressLookupTableAccount>,
    ) -> (r: Result<VersionedTransaction, ClientError>)
        requires
            self.inv(),
            forall|p: int, q: int|
                0 <= p < q < lookup_tables@.len() ==> lookup_tables@[p].key
                    != lookup_tables@[q].key,
        ensures
            (match r {
                Ok(tx) => {
                    let resolutions = spec_lookup_resolutions(tx.lookups@, lookup_tables@);
                    &&& tx.recent_blockhash == self.current_blockhash()
                    &&& resolutions is Some
                    &&& {
                        let keys = tx.static_keys@ + resolutions.unwrap().0
                            + resolutions.unwrap().1;
                        let statics = tx.static_keys@.len() as int;
                        let nrs = tx.header.num_required_signatures as int;
                        &&& statics > 0 && tx.static_keys@[0] == payer
                        &&& forall|p: int, q: int| 0 <= p < q < keys.len() ==> keys[p] != keys[q]
                        &&& forall|k: Address|
                            #[trigger] keys.contains(k) <==> spec_key_is_referenced(
                                instructions@,
                                payer,
                                k,
                            )
                        &&& 0 < nrs <= statics
                        &&& forall|j: int|
                            0 <= j < keys.len() ==> ((j < nrs) <==> spec_key_is_signer(
                                instructions@,
                                payer,
                                #[trigger] keys[j],
                            ))
                        &&& tx.signatures@.len() == nrs
                        &&& forall|j: int|
                            0 <= j < nrs ==> spec_signature_for(signers@, keys[j]) == Some(
                                #[trigger] tx.signatures@[j],
                            )
                        &&& tx.instructions@.len() == instructions@.len()
                        &&& forall|i: int|
                            0 <= i < instructions@.len() ==> {
                                let ci = #[trigger] tx.instructions@[i];
                                let src = instructions@[i];
                                &&& ci.program_id_index < keys.len()
                                &&& keys[ci.program_id_index as int] == src.program_id
                                &&& ci.account_indexes@.len() == src.accounts@.len()
                                &&& forall|a: int|
                                    0 <= a < src.accounts@.len() ==> (
                                    #[trigger] ci.account_indexes@[a]) < keys.len()
                                        && keys[ci.account_indexes@[a] as int]
                                        == src.accounts@[a].address
                                &&& ci.data@ == src.data@
                            }
                    }
                },
                Err(_) => true,
            }),
    {
        let recent_blockhash = match self.get_latest_blockhash() {
            Ok(h) => h,
            Err(e) => {
                return Err(e);
            },
        };
        compile_transaction_with_blockhash(
            instructions,
            payer,
            signers,
            lookup_tables,
            recent_blockhash,
        )
    }
}

impl<C: Client + GetLatestBlockhash> CompileTransaction for C {

}

} // verus!
