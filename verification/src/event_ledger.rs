//! The append-only, hash-chained event ledger: each entry commits to every
//! entry before it, Lamport counters strictly increase, event ids never
//! repeat, and a sealed ledger takes no more entries.

use vstd::prelude::*;
use crate::kernel_machine::{now_utc, Timestamp};
use crate::realm_id::RealmId;
use crate::text::{debug_str, decimal, hash_str_into, hex, push_hex, same_text, str_debug, str_hashed};
use std::collections::hash_map::DefaultHasher;
use std::hash::Hasher;
use vstd::std_specs::hash::DefaultHasherAdditionalSpecFns;

verus! {

// ─── Chain hashes ────────────────────────────────────────────────────────────

/// The 64-bit digest a new `DefaultHasher` gives after hashing an event id,
/// a payload hash and the previous chain hash, in that order.
pub open spec fn chain_digest(event_id: Seq<char>, payload_hash: Seq<char>, prev: Seq<char>) -> u64 {
    DefaultHasher::spec_finish(str_hashed(str_hashed(str_hashed(Seq::empty(), event_id), payload_hash), prev))
}

/// Hash the three texts, in order, with a new `DefaultHasher`.
fn hash_chain_link(event_id: &str, payload_hash: &str, prev: &str) -> (h: u64)
    ensures
        h == chain_digest(event_id@, payload_hash@, prev@),
{
    let mut hasher = DefaultHasher::new();
    hash_str_into(&mut hasher, event_id);
    hash_str_into(&mut hasher, payload_hash);
    hash_str_into(&mut hasher, prev);
    hasher.finish()
}

/// The chain hash of an entry: the hexadecimal digest of its event id, its
/// payload hash and the previous chain hash.
pub open spec fn chain_text(event_id: Seq<char>, payload_hash: Seq<char>, prev: Seq<char>) -> Seq<char> {
    hex(chain_digest(event_id, payload_hash, prev) as nat)
}

/// The anchor every chain starts from.
pub open spec fn genesis_chain() -> Seq<char> {
    "genesis:bkg:0000000000000000"@
}

fn genesis_chain_text() -> (r: String)
    ensures
        r@ == genesis_chain(),
{
    String::from_str("genesis:bkg:0000000000000000")
}

// ─── LedgerEntry ─────────────────────────────────────────────────────────────

/// One entry of the ledger, immutable once appended.
#[derive(Debug)]
pub struct LedgerEntry {
    /// Position in the ledger, from 0.
    pub seq: u64,
    pub event_id: String,
    pub schema_id: String,
    /// Strictly increasing along the ledger.
    pub lamport: u64,
    pub payload_hash: String,
    /// The payload, kept for replay.
    pub payload: serde_json::Value,
    pub producer: String,
    pub causal_parent: Option<String>,
    /// `chain_text(event_id, payload_hash, previous chain hash)`.
    pub chain_hash: String,
    /// Wall time of the append; never used for ordering.
    pub appended_at: Timestamp,
}

impl LedgerEntry {
    /// The chain hash of an entry with this id and payload hash after `prev`.
    pub fn compute_chain_hash(event_id: &str, payload_hash: &str, prev_chain_hash: &str) -> (r: String)
        ensures
            r@ == chain_text(event_id@, payload_hash@, prev_chain_hash@),
    {
        let digest = hash_chain_link(event_id, payload_hash, prev_chain_hash);
        let mut s = String::new();
        push_hex(&mut s, digest);
        s
    }

    /// Does the entry's chain hash follow from `prev_chain_hash`?
    pub fn verify_chain_hash(&self, prev_chain_hash: &str) -> (r: bool)
        ensures
            r == (self.chain_hash@ == chain_text(self.event_id@, self.payload_hash@, prev_chain_hash@)),
    {
        let expected = Self::compute_chain_hash(self.event_id.as_str(), self.payload_hash.as_str(), prev_chain_hash);
        same_text(self.chain_hash.as_str(), expected.as_str())
    }
}

// ─── Errors and verification results ─────────────────────────────────────────

/// Why an append was refused.
#[derive(Debug, Clone, PartialEq, Eq)]
pub enum LedgerAppendError {
    LamportNotMonotone { tip: u64, new: u64 },
    DuplicateEventId { event_id: String },
    Sealed,
}

/// The outcome of checking the hash chain.
#[derive(Debug, Clone, PartialEq, Eq)]
pub enum ChainVerification {
    Valid { entry_count: u64, chain_tip: String },
    Broken { at_seq: u64, at_event_id: String },
}

/// The message an append refusal prints.
pub open spec fn append_error_text(e: LedgerAppendError) -> Seq<char> {
    match e {
        LedgerAppendError::LamportNotMonotone { tip, new } => "lamport not monotone: ledger tip="@ + decimal(tip as nat) + ", new="@
            + decimal(new as nat),
        LedgerAppendError::DuplicateEventId { event_id } => "duplicate event_id: "@ + event_id@,
        LedgerAppendError::Sealed => "ledger is sealed — no further appends allowed"@,
    }
}

impl LedgerAppendError {
    /// The message, as the error prints it.
    pub fn to_text(&self) -> (r: String)
        ensures
            r@ == append_error_text(*self),
    {
        proof {
            reveal_strlit("lamport not monotone: ledger tip=");
            reveal_strlit(", new=");
            reveal_strlit("duplicate event_id: ");
            reveal_strlit("ledger is sealed — no further appends allowed");
        }
        match self {
            LedgerAppendError::LamportNotMonotone { tip, new } => {
                let mut s = String::from_str("lamport not monotone: ledger tip=");
                crate::text::push_decimal_u64(&mut s, *tip);
                s.append(", new=");
                crate::text::push_decimal_u64(&mut s, *new);
                s
            },
            LedgerAppendError::DuplicateEventId { event_id } => {
                let mut s = String::from_str("duplicate event_id: ");
                s.append(event_id.as_str());
                s
            },
            LedgerAppendError::Sealed => String::from_str("ledger is sealed — no further appends allowed"),
        }
    }
}

/// The debug text of a verification result.
pub open spec fn chain_debug_text(c: ChainVerification) -> Seq<char> {
    match c {
        ChainVerification::Valid { entry_count, chain_tip } => "Valid { entry_count: "@ + decimal(entry_count as nat)
            + ", chain_tip: "@ + str_debug(chain_tip@) + " }"@,
        ChainVerification::Broken { at_seq, at_event_id } => "Broken { at_seq: "@ + decimal(at_seq as nat) + ", at_event_id: "@
            + str_debug(at_event_id@) + " }"@,
    }
}

impl ChainVerification {
    /// The result as its `Debug` form writes it.
    pub fn debug_text(&self) -> (r: String)
        ensures
            r@ == chain_debug_text(*self),
    {
        proof {
            reveal_strlit("Valid { entry_count: ");
            reveal_strlit(", chain_tip: ");
            reveal_strlit(" }");
            reveal_strlit("Broken { at_seq: ");
            reveal_strlit(", at_event_id: ");
        }
        match self {
            ChainVerification::Valid { entry_count, chain_tip } => {
                let mut s = String::from_str("Valid { entry_count: ");
                crate::text::push_decimal_u64(&mut s, *entry_count);
                s.append(", chain_tip: ");
                let d = debug_str(chain_tip.as_str());
                s.append(d.as_str());
                s.append(" }");
                s
            },
            ChainVerification::Broken { at_seq, at_event_id } => {
                let mut s = String::from_str("Broken { at_seq: ");
                crate::text::push_decimal_u64(&mut s, *at_seq);
                s.append(", at_event_id: ");
                let d = debug_str(at_event_id.as_str());
                s.append(d.as_str());
                s.append(" }");
                s
            },
        }
    }

    pub fn is_valid(&self) -> (r: bool)
        ensures
            r == (*self is Valid),
    {
        match self {
            ChainVerification::Valid { .. } => true,
            ChainVerification::Broken { .. } => false,
        }
    }
}

// ─── The chain, in mathematics ───────────────────────────────────────────────

/// The chain hash before entry `k`: the anchor for the first entry, else the
/// chain hash of the entry before.
pub open spec fn prev_chain(es: Seq<LedgerEntry>, k: int) -> Seq<char> {
    if k == 0 { genesis_chain() } else { es[k - 1].chain_hash@ }
}

/// Entry `k` commits to the entry before it.
pub open spec fn link_ok(es: Seq<LedgerEntry>, k: int) -> bool {
    es[k].chain_hash@ == chain_text(es[k].event_id@, es[k].payload_hash@, prev_chain(es, k))
}

/// The first entry whose chain hash does not follow, if any.
pub open spec fn first_broken(es: Seq<LedgerEntry>) -> Option<int> {
    if exists|k: int| 0 <= k < es.len() && !link_ok(es, k) {
        Some(choose|k: int| 0 <= k < es.len() && !link_ok(es, k) && forall|j: int| 0 <= j < k ==> link_ok(es, j))
    } else {
        None
    }
}

/// The chain tip a sequence of (event id, payload hash) pairs builds from the anchor.
pub open spec fn chain_of(links: Seq<(Seq<char>, Seq<char>)>) -> Seq<char>
    decreases links.len(),
{
    if links.len() == 0 {
        genesis_chain()
    } else {
        let l = links.last();
        chain_text(l.0, l.1, chain_of(links.drop_last()))
    }
}

/// The (event id, payload hash) pairs of the entries.
pub open spec fn links_of(es: Seq<LedgerEntry>) -> Seq<(Seq<char>, Seq<char>)> {
    es.map_values(|e: LedgerEntry| (e.event_id@, e.payload_hash@))
}

// ─── EventLedger ─────────────────────────────────────────────────────────────

/// The append-only, hash-chained event ledger of one realm.
#[derive(Debug)]
pub struct EventLedger {
    pub realm_id: Option<RealmId>,
    entries: Vec<LedgerEntry>,
    /// The chain hash of the last entry, or the anchor.
    chain_tip: String,
    /// A sealed ledger takes no further appends.
    pub sealed: bool,
}

impl EventLedger {
    /// The entries, in order.
    pub closed spec fn spec_entries(&self) -> Seq<LedgerEntry> {
        self.entries@
    }

    /// The chain tip.
    pub closed spec fn spec_tip(&self) -> Seq<char> {
        self.chain_tip@
    }

    /// The realm the ledger belongs to.
    pub closed spec fn spec_realm(&self) -> Option<RealmId> {
        self.realm_id
    }

    /// Is the ledger sealed?
    pub closed spec fn spec_sealed(&self) -> bool {
        self.sealed
    }

    /// The ledger's invariant: positions, strictly increasing Lamport
    /// counters, distinct event ids, every entry linked to the one before,
    /// and the tip on the last entry.
    pub open spec fn wf(&self) -> bool {
        let es = self.spec_entries();
        &&& forall|k: int| 0 <= k < es.len() ==> (#[trigger] es[k]).seq == k
        &&& forall|i: int, j: int| 0 <= i < j < es.len() ==> (#[trigger] es[i]).lamport < (#[trigger] es[j]).lamport
        &&& forall|i: int, j: int| 0 <= i < j < es.len() ==> (#[trigger] es[i]).event_id@ != (#[trigger] es[j]).event_id@
        &&& forall|k: int| 0 <= k < es.len() ==> #[trigger] link_ok(es, k)
        &&& self.spec_tip() == prev_chain(es, es.len() as int)
    }

    pub fn new(realm_id: RealmId) -> (r: Self)
        ensures
            r.wf(),
            r.spec_realm() == Some(realm_id),
            r.spec_entries().len() == 0,
            !r.spec_sealed(),
    {
        EventLedger { realm_id: Some(realm_id), entries: Vec::new(), chain_tip: genesis_chain_text(), sealed: false }
    }

    /// Is some entry's event id `id`?
    fn has_event_id(&self, id: &str) -> (r: bool)
        ensures
            r == exists|k: int| 0 <= k < self.spec_entries().len() && (#[trigger] self.spec_entries()[k]).event_id@ == id@,
    {
        let mut k: usize = 0;
        while k < self.entries.len()
            invariant
                k <= self.entries@.len(),
                forall|j: int| 0 <= j < k ==> (#[trigger] self.entries@[j]).event_id@ != id@,
            decreases self.entries@.len() - k,
        {
            if same_text(self.entries[k].event_id.as_str(), id) {
                return true;
            }
            k = k + 1;
        }
        false
    }

    /// Append an event: refused when the ledger is sealed, when the Lamport
    /// counter does not exceed the last entry's, or when the event id is
    /// already in the ledger (checked in that order). An accepted event
    /// becomes the last entry, chained to the tip.
    pub fn append(
        &mut self,
        event_id: &str,
        schema_id: &str,
        lamport: u64,
        payload_hash: &str,
        payload: serde_json::Value,
        producer: &str,
        causal_parent: Option<String>,
    ) -> (r: Result<&LedgerEntry, LedgerAppendError>)
        requires
            old(self).wf(),
            old(self).spec_entries().len() < u64::MAX,
        ensures
            final(self).wf(),
            final(self).spec_realm() == old(self).spec_realm(),
            final(self).spec_sealed() == old(self).spec_sealed(),
            ({
                let es = old(self).spec_entries();
                let n = es.len();
                if old(self).spec_sealed() {
                    r == Err::<&LedgerEntry, LedgerAppendError>(LedgerAppendError::Sealed) && final(self).spec_entries() == es
                } else if n > 0 && lamport <= es[n - 1].lamport {
                    r == Err::<&LedgerEntry, LedgerAppendError>(LedgerAppendError::LamportNotMonotone { tip: es[n - 1].lamport, new: lamport })
                        && final(self).spec_entries() == es
                } else if exists|k: int| 0 <= k < n && (#[trigger] es[k]).event_id@ == event_id@ {
                    r matches Err(LedgerAppendError::DuplicateEventId { event_id: id }) && id@ == event_id@
                        && final(self).spec_entries() == es
                } else {
                    let e = final(self).spec_entries()[n as int];
                    &&& final(self).spec_entries().len() == n + 1
                    &&& final(self).spec_entries().take(n as int) == es
                    &&& r matches Ok(x) && *x == e
                    &&& e.seq == n
                    &&& e.event_id@ == event_id@
                    &&& e.schema_id@ == schema_id@
                    &&& e.lamport == lamport
                    &&& e.payload_hash@ == payload_hash@
                    &&& e.payload == payload
                    &&& e.producer@ == producer@
                    &&& e.causal_parent == causal_parent
                    &&& e.chain_hash@ == chain_text(event_id@, payload_hash@, old(self).spec_tip())
                }
            }),
    {
        if self.sealed {
            return Err(LedgerAppendError::Sealed);
        }
        let n = self.entries.len();
        if n > 0 {
            let tip_lamport = self.entries[n - 1].lamport;
            if lamport <= tip_lamport {
                return Err(LedgerAppendError::LamportNotMonotone { tip: tip_lamport, new: lamport });
            }
        }
        if self.has_event_id(event_id) {
            return Err(LedgerAppendError::DuplicateEventId { event_id: event_id.to_owned() });
        }
        let chain_hash = LedgerEntry::compute_chain_hash(event_id, payload_hash, self.chain_tip.as_str());
        let tip = chain_hash.clone();
        let entry = LedgerEntry {
            seq: n as u64,
            event_id: event_id.to_owned(),
            schema_id: schema_id.to_owned(),
            lamport,
            payload_hash: payload_hash.to_owned(),
            payload,
            producer: producer.to_owned(),
            causal_parent,
            chain_hash,
            appended_at: now_utc(),
        };
        let ghost before = self.entries@;
        self.entries.push(entry);
        self.chain_tip = tip;
        proof {
            let es = self.entries@;
            assert(es.take(n as int) =~= before);
            assert forall|k: int| 0 <= k < es.len() implies #[trigger] link_ok(es, k) by {
                if k < n {
                    assert(es[k] == before[k]);
                    assert(link_ok(before, k));
                    if k > 0 {
                        assert(es[k - 1] == before[k - 1]);
                    }
                }
            }
        }
        Ok(&self.entries[n])
    }

    /// Check the whole chain from the anchor: `Broken` at the first entry
    /// whose chain hash does not follow, else `Valid`.
    pub fn verify_chain(&self) -> (r: ChainVerification)
        ensures
            match first_broken(self.spec_entries()) {
                Some(k) => r matches ChainVerification::Broken { at_seq, at_event_id }
                    && at_seq == self.spec_entries()[k].seq && at_event_id@ == self.spec_entries()[k].event_id@,
                None => r matches ChainVerification::Valid { entry_count, chain_tip }
                    && entry_count == self.spec_entries().len() && chain_tip@ == self.spec_tip(),
            },
    {
        let ghost es = self.entries@;
        let mut prev = genesis_chain_text();
        let mut k: usize = 0;
        while k < self.entries.len()
            invariant
                k <= es.len(),
                es == self.entries@,
                prev@ == prev_chain(es, k as int),
                forall|j: int| 0 <= j < k ==> link_ok(es, j),
            decreases es.len() - k,
        {
            if !self.entries[k].verify_chain_hash(prev.as_str()) {
                proof {
                    assert(!link_ok(es, k as int));
                    let w = choose|w: int| 0 <= w < es.len() && !link_ok(es, w) && forall|j: int| 0 <= j < w ==> link_ok(es, j);
                    if w < k {
                        assert(link_ok(es, w));
                    } else if w > k {
                        assert(link_ok(es, k as int));
                    }
                }
                return ChainVerification::Broken { at_seq: self.entries[k].seq, at_event_id: self.entries[k].event_id.clone() };
            }
            prev = self.entries[k].chain_hash.clone();
            k = k + 1;
        }
        ChainVerification::Valid { entry_count: self.entries.len() as u64, chain_tip: self.chain_tip.clone() }
    }

    /// Seal the ledger: no further appends.
    pub fn seal(&mut self)
        ensures
            final(self).spec_sealed(),
            final(self).spec_realm() == old(self).spec_realm(),
            final(self).spec_entries() == old(self).spec_entries(),
            final(self).spec_tip() == old(self).spec_tip(),
    {
        self.sealed = true;
    }

    pub fn len(&self) -> (r: usize)
        ensures
            r == self.spec_entries().len(),
    {
        self.entries.len()
    }

    pub fn is_empty(&self) -> (r: bool)
        ensures
            r == (self.spec_entries().len() == 0),
    {
        self.entries.len() == 0
    }

    pub fn chain_tip(&self) -> (r: &str)
        ensures
            r@ == self.spec_tip(),
    {
        self.chain_tip.as_str()
    }

    pub fn entries(&self) -> (r: &Vec<LedgerEntry>)
        ensures
            r@ == self.spec_entries(),
    {
        &self.entries
    }

    /// The Lamport counters of the first and last entries.
    pub fn lamport_range(&self) -> (r: Option<(u64, u64)>)
        ensures
            self.spec_entries().len() == 0 ==> r is None,
            self.spec_entries().len() > 0 ==> r == Some(
                (self.spec_entries()[0].lamport, self.spec_entries().last().lamport),
            ),
    {
        let n = self.entries.len();
        if n == 0 {
            None
        } else {
            Some((self.entries[0].lamport, self.entries[n - 1].lamport))
        }
    }

    /// The entry at a position.
    pub fn get(&self, seq: u64) -> (r: Option<&LedgerEntry>)
        ensures
            seq < self.spec_entries().len() ==> r == Some(&self.spec_entries()[seq as int]),
            seq >= self.spec_entries().len() ==> r is None,
    {
        if seq < self.entries.len() as u64 {
            Some(&self.entries[seq as usize])
        } else {
            None
        }
    }

    /// The entries whose Lamport counter lies in `[from_lamport, to_lamport]`, in order.
    pub fn range(&self, from_lamport: u64, to_lamport: u64) -> (r: Vec<&LedgerEntry>)
        ensures
            r@.map_values(|e: &LedgerEntry| *e) == self.spec_entries().filter(
                |e: LedgerEntry| from_lamport <= e.lamport && e.lamport <= to_lamport,
            ),
    {
        let ghost pred = |e: LedgerEntry| from_lamport <= e.lamport && e.lamport <= to_lamport;
        let mut out: Vec<&LedgerEntry> = Vec::new();
        let mut k: usize = 0;
        while k < self.entries.len()
            invariant
                k <= self.entries@.len(),
                pred == (|e: LedgerEntry| from_lamport <= e.lamport && e.lamport <= to_lamport),
                out@.map_values(|e: &LedgerEntry| *e) == self.entries@.take(k as int).filter(pred),
            decreases self.entries@.len() - k,
        {
            proof {
                crate::cells::lemma_filter_take_succ(self.entries@, k as int, pred);
            }
            let e = &self.entries[k];
            if from_lamport <= e.lamport && e.lamport <= to_lamport {
                let ghost before = out@;
                out.push(e);
                proof {
                    assert(out@.map_values(|e: &LedgerEntry| *e) =~= before.map_values(|e: &LedgerEntry| *e).push(*e));
                }
            }
            k = k + 1;
        }
        assert(self.entries@.take(self.entries@.len() as int) =~= self.entries@);
        out
    }
}

// ─── Laws ────────────────────────────────────────────────────────────────────

/// In a well-formed ledger the chain verifies.
pub proof fn lemma_wf_chain_valid(l: EventLedger)
    requires
        l.wf(),
    ensures
        first_broken(l.spec_entries()) is None,
{
}

/// The chain tip of a well-formed ledger depends only on its entries' event
/// ids and payload hashes, in order: the same events appended in the same
/// order give the same tip.
pub proof fn lemma_tip_is_chain_of_links(l: EventLedger)
    requires
        l.wf(),
    ensures
        l.spec_tip() == chain_of(links_of(l.spec_entries())),
{
    let es = l.spec_entries();
    lemma_prev_chain_is_chain_of(es, es.len() as int);
    assert(es.take(es.len() as int) =~= es);
}

proof fn lemma_prev_chain_is_chain_of(es: Seq<LedgerEntry>, k: int)
    requires
        0 <= k <= es.len(),
        forall|j: int| 0 <= j < es.len() ==> #[trigger] link_ok(es, j),
    ensures
        prev_chain(es, k) == chain_of(links_of(es.take(k))),
    decreases k,
{
    if k > 0 {
        lemma_prev_chain_is_chain_of(es, k - 1);
        assert(links_of(es.take(k)).drop_last() =~= links_of(es.take(k - 1)));
        assert(link_ok(es, k - 1));
    } else {
        assert(links_of(es.take(0)) =~= Seq::<(Seq<char>, Seq<char>)>::empty());
    }
}

/// Entries whose chain verifies commit to their whole history: each entry's
/// chain hash is the chain the (event id, payload hash) pairs of it and of
/// every entry before it build from the anchor.
pub proof fn lemma_verified_chain_commits(es: Seq<LedgerEntry>)
    requires
        first_broken(es) is None,
    ensures
        forall|k: int| 0 <= k < es.len() ==> (#[trigger] es[k]).chain_hash@ == chain_of(links_of(es.take(k + 1))),
{
    assert forall|k: int| 0 <= k < es.len() implies (#[trigger] es[k]).chain_hash@ == chain_of(links_of(es.take(k + 1))) by {
        lemma_prev_chain_is_chain_of(es, k + 1);
    }
}

/// Two well-formed ledgers holding the same events, by id and payload hash
/// in order, have the same chain tip.
pub proof fn lemma_same_events_same_tip(a: EventLedger, b: EventLedger)
    requires
        a.wf(),
        b.wf(),
        links_of(a.spec_entries()) == links_of(b.spec_entries()),
    ensures
        a.spec_tip() == b.spec_tip(),
{
    lemma_tip_is_chain_of_links(a);
    lemma_tip_is_chain_of_links(b);
}

} // verus!
