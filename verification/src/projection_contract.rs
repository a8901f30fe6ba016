//! Projection integrity: the event range a projection was built from, its
//! version and checksum, the kernel's stamp, and the log of rebuilds.

use vstd::prelude::*;
use crate::cells::lemma_filter_take_succ;
use crate::text::{decimal, hash_str_into, hash_u64_into, hex, lemma_hex_nonempty, push_decimal_u64, push_hex, str_hashed, u64_bytes};
use std::collections::hash_map::DefaultHasher;
use std::hash::Hasher;
use vstd::std_specs::hash::DefaultHasherAdditionalSpecFns;

verus! {

// ─── EventRange ──────────────────────────────────────────────────────────────

/// The events (by Lamport counter) a projection was built from.
#[derive(Debug, Clone, Copy, PartialEq, Eq, Structural, PartialOrd, Ord, Hash)]
pub struct EventRange {
    /// First Lamport counter included.
    pub from_lamport: u64,
    /// Last Lamport counter included.
    pub to_lamport: u64,
    /// Number of events in the range.
    pub event_count: u64,
}

/// Does the range hold `l`?
pub open spec fn range_contains(r: EventRange, l: u64) -> bool {
    r.event_count != 0 && r.from_lamport <= l && l <= r.to_lamport
}

/// Do the ranges share a counter?
pub open spec fn ranges_overlap(a: EventRange, b: EventRange) -> bool {
    a.event_count != 0 && b.event_count != 0 && a.from_lamport <= b.to_lamport && b.from_lamport <= a.to_lamport
}

/// The range extended by the event `l`.
pub open spec fn range_extend(r: EventRange, l: u64) -> EventRange {
    if r.event_count == 0 {
        EventRange { from_lamport: l, to_lamport: l, event_count: 1 }
    } else {
        EventRange {
            from_lamport: if l < r.from_lamport { l } else { r.from_lamport },
            to_lamport: if l > r.to_lamport { l } else { r.to_lamport },
            event_count: (r.event_count + 1) as u64,
        }
    }
}

impl EventRange {
    pub fn new(from: u64, to: u64, count: u64) -> (r: Self)
        ensures
            r == (EventRange { from_lamport: from, to_lamport: to, event_count: count }),
    {
        EventRange { from_lamport: from, to_lamport: to, event_count: count }
    }

    /// The range of one event.
    pub fn single(lamport: u64) -> (r: Self)
        ensures
            r == (EventRange { from_lamport: lamport, to_lamport: lamport, event_count: 1 }),
    {
        Self::new(lamport, lamport, 1)
    }

    /// The range of no events.
    pub fn empty() -> (r: Self)
        ensures
            r == (EventRange { from_lamport: 0, to_lamport: 0, event_count: 0 }),
    {
        Self::new(0, 0, 0)
    }

    pub fn is_empty(&self) -> (r: bool)
        ensures
            r == (self.event_count == 0),
    {
        self.event_count == 0
    }

    /// Does the range hold the counter?
    pub fn contains(&self, lamport: u64) -> (r: bool)
        ensures
            r == range_contains(*self, lamport),
    {
        !self.is_empty() && lamport >= self.from_lamport && lamport <= self.to_lamport
    }

    /// The range widened to hold one more event.
    pub fn extend(&self, lamport: u64) -> (r: Self)
        requires
            self.event_count < u64::MAX,
        ensures
            r == range_extend(*self, lamport),
    {
        if self.is_empty() {
            Self::single(lamport)
        } else {
            let from = if lamport < self.from_lamport { lamport } else { self.from_lamport };
            let to = if lamport > self.to_lamport { lamport } else { self.to_lamport };
            Self::new(from, to, self.event_count + 1)
        }
    }

    /// Do the ranges share a counter?
    pub fn overlaps(&self, other: &Self) -> (r: bool)
        ensures
            r == ranges_overlap(*self, *other),
    {
        !self.is_empty() && !other.is_empty() && self.from_lamport <= other.to_lamport
            && other.from_lamport <= self.to_lamport
    }

    /// The range as text: `[empty]` or `[from..to (n events)]`.
    pub fn to_text(&self) -> (r: String)
        ensures
            r@ == if self.event_count == 0 {
                "[empty]"@
            } else {
                "["@ + decimal(self.from_lamport as nat) + ".."@ + decimal(self.to_lamport as nat) + " ("@
                    + decimal(self.event_count as nat) + " events)]"@
            },
    {
        if self.is_empty() {
            String::from_str("[empty]")
        } else {
            let mut s = String::from_str("[");
            push_decimal_u64(&mut s, self.from_lamport);
            s.append("..");
            push_decimal_u64(&mut s, self.to_lamport);
            s.append(" (");
            push_decimal_u64(&mut s, self.event_count);
            s.append(" events)]");
            s
        }
    }
}

/// Overlap is symmetric.
pub proof fn lemma_overlap_symmetric(a: EventRange, b: EventRange)
    ensures
        ranges_overlap(a, b) == ranges_overlap(b, a),
{
}

/// A range overlaps itself exactly when it is not empty and its bounds are
/// in order.
pub proof fn lemma_overlap_reflexive(a: EventRange)
    ensures
        ranges_overlap(a, a) == (a.event_count != 0 && a.from_lamport <= a.to_lamport),
{
}

/// Extending by an event makes the range hold it, keeps every counter it
/// held, and counts one more event.
pub proof fn lemma_extend_contains(r: EventRange, l: u64, x: u64)
    requires
        r.event_count < u64::MAX,
    ensures
        range_contains(range_extend(r, l), l),
        range_contains(r, x) ==> range_contains(range_extend(r, l), x),
        range_extend(r, l).event_count == r.event_count + 1,
{
}

/// A range that holds a counter overlaps every range that holds it.
pub proof fn lemma_common_counter_overlaps(a: EventRange, b: EventRange, x: u64)
    requires
        range_contains(a, x),
        range_contains(b, x),
    ensures
        ranges_overlap(a, b),
{
}


// ─── ProjectionVersion ───────────────────────────────────────────────────────

/// The version of a projection: the Lamport counter of the last event it saw.
#[derive(Debug, Clone, Copy, PartialEq, Eq, Structural, PartialOrd, Ord, Hash)]
pub struct ProjectionVersion(pub u64);

impl ProjectionVersion {
    pub fn zero() -> (r: Self)
        ensures
            r.0 == 0,
    {
        ProjectionVersion(0)
    }

    pub fn from_lamport(lamport: u64) -> (r: Self)
        ensures
            r.0 == lamport,
    {
        ProjectionVersion(lamport)
    }

    pub fn next(&self) -> (r: Self)
        requires
            self.0 < u64::MAX,
        ensures
            r.0 == self.0 + 1,
    {
        ProjectionVersion(self.0 + 1)
    }

    /// The version as text: `pv` and the counter.
    pub fn to_text(&self) -> (r: String)
        ensures
            r@ == "pv"@ + decimal(self.0 as nat),
    {
        let mut s = String::from_str("pv");
        push_decimal_u64(&mut s, self.0);
        s
    }
}

// ─── Outside computations ────────────────────────────────────────────────────

/// The compact JSON text that `serde_json` writes for a value.
pub uninterp spec fn json_text(v: serde_json::Value) -> Seq<char>;

/// The 64-bit digest a new `DefaultHasher` gives after hashing one string.
pub open spec fn text_hash(s: Seq<char>) -> u64 {
    DefaultHasher::spec_finish(str_hashed(Seq::empty(), s))
}

/// The 64-bit digest a new `DefaultHasher` gives after hashing, in order, a
/// projection id and a checksum, then writing the bytes of the two bounds of
/// an event range.
pub open spec fn stamp_hash(projection_id: Seq<char>, checksum: Seq<char>, from_bytes: Seq<u8>, to_bytes: Seq<u8>) -> u64 {
    DefaultHasher::spec_finish(
        str_hashed(str_hashed(Seq::empty(), projection_id), checksum).push(from_bytes).push(to_bytes),
    )
}

/// `t` is the stamp text of a projection id, a checksum and a range: the hex
/// digest of the id, the checksum and the two bounds, each bound written in
/// the machine's byte order.
pub open spec fn stamp_text(t: Seq<char>, projection_id: Seq<char>, checksum: Seq<char>, from: u64, to: u64) -> bool {
    exists|bf: Seq<u8>, bt: Seq<u8>|
        u64_bytes(from, bf) && u64_bytes(to, bt) && t == hex(#[trigger] stamp_hash(projection_id, checksum, bf, bt) as nat)
}

/// `serde_json::Value`'s `to_string` (its `Display`): the compact JSON text.
/// It depends on the value alone (object keys come out in the map's sorted
/// order); what the text is, is not stated beyond that name.
#[verifier::external_body]
pub(crate) fn json_to_text(v: &serde_json::Value) -> (r: String)
    ensures
        r@ == json_text(*v),
{
    v.to_string()
}

/// Hash one text with a new `DefaultHasher`.
fn hash_text(s: &str) -> (h: u64)
    ensures
        h == text_hash(s@),
{
    let mut hasher = DefaultHasher::new();
    hash_str_into(&mut hasher, s);
    hasher.finish()
}

/// Hash the projection id, the checksum text and the two bounds, in that
/// order, with a new `DefaultHasher`.
fn hash_stamp(projection_id: &str, checksum: &str, from: u64, to: u64) -> (h: u64)
    ensures
        exists|bf: Seq<u8>, bt: Seq<u8>|
            u64_bytes(from, bf) && u64_bytes(to, bt) && h == #[trigger] stamp_hash(projection_id@, checksum@, bf, bt),
{
    let mut hasher = DefaultHasher::new();
    hash_str_into(&mut hasher, projection_id);
    hash_str_into(&mut hasher, checksum);
    let ghost s0 = hasher@;
    hash_u64_into(&mut hasher, from);
    let ghost bf = hasher@.last();
    let ghost s1 = hasher@;
    hash_u64_into(&mut hasher, to);
    let ghost bt = hasher@.last();
    let h = hasher.finish();
    proof {
        assert(s1 == s0.push(bf)) by {
            assert(s1 =~= s1.drop_last().push(s1.last()));
        }
        assert(hasher@ =~= s1.push(bt)) by {
            assert(hasher@ =~= hasher@.drop_last().push(hasher@.last()));
        }
        assert(h == stamp_hash(projection_id@, checksum@, bf, bt));
    }
    h
}

// ─── ProjectionChecksum ──────────────────────────────────────────────────────

/// The checksum of a JSON value: the lowercase hexadecimal digest of its
/// compact JSON text.
pub open spec fn checksum_of(v: serde_json::Value) -> Seq<char> {
    hex(text_hash(json_text(v)) as nat)
}

/// A deterministic checksum over a projection's data.
#[derive(Debug)]
pub struct ProjectionChecksum(pub String);

impl View for ProjectionChecksum {
    type V = Seq<char>;

    open spec fn view(&self) -> Seq<char> {
        self.0@
    }
}

impl Clone for ProjectionChecksum {
    fn clone(&self) -> (r: Self)
        ensures
            r == *self,
    {
        ProjectionChecksum(self.0.clone())
    }
}

impl ProjectionChecksum {
    /// The checksum of the data's compact JSON text.
    pub fn compute(data: &serde_json::Value) -> (r: Self)
        ensures
            r@ == checksum_of(*data),
    {
        let text = json_to_text(data);
        let digest = hash_text(text.as_str());
        let mut s = String::new();
        push_hex(&mut s, digest);
        ProjectionChecksum(s)
    }

    /// A checksum given as text.
    pub fn wrap(s: &str) -> (r: Self)
        ensures
            r@ == s@,
    {
        ProjectionChecksum(s.to_string())
    }

    /// Do the two checksums have the same text?
    pub fn matches(&self, other: &Self) -> (r: bool)
        ensures
            r == (self@ == other@),
    {
        string_eq(&self.0, &other.0)
    }

    /// The short form: `ck:` and the first eight bytes of the text (all of
    /// them when there are fewer). The eighth byte must end a character.
    pub fn to_text(&self) -> (r: String)
        requires
            utf8_len(self@) < 8 || exists|m: int| 0 <= m <= self@.len() && #[trigger] utf8_len(self@.take(m)) == 8,
        ensures
            exists|m: int|
                0 <= m <= self@.len() && #[trigger] utf8_len(self@.take(m)) == (if utf8_len(self@) < 8 {
                    utf8_len(self@)
                } else {
                    8
                }) && r@ == "ck:"@ + self@.take(m),
    {
        let len = self.0.unicode_len();
        let mut m: usize = 0;
        let mut bytes: usize = 0;
        proof {
            assert(self@.take(0) =~= Seq::<char>::empty());
        }
        while m < len && bytes < 8
            invariant
                len == self@.len(),
                m <= len,
                bytes == utf8_len(self@.take(m as int)),
                bytes <= 8,
                utf8_len(self@) < 8 || exists|k: int| 0 <= k <= self@.len() && #[trigger] utf8_len(self@.take(k)) == 8,
            decreases len - m,
        {
            let c = self.0.get_char(m);
            let w: usize = if (c as u32) <= 0x7F {
                1
            } else if (c as u32) <= 0x7FF {
                2
            } else if (c as u32) <= 0xFFFF {
                3
            } else {
                4
            };
            proof {
                assert(self@.take(m + 1).drop_last() =~= self@.take(m as int));
                assert(w == char_width(c));
                if utf8_len(self@) >= 8 {
                    let k = choose|k: int| 0 <= k <= self@.len() && #[trigger] utf8_len(self@.take(k)) == 8;
                    if k <= m {
                        lemma_utf8_len_prefix(self@, k, m as int);
                        assert(false);
                    }
                    lemma_utf8_len_prefix(self@, m + 1, k);
                } else {
                    lemma_utf8_len_prefix(self@, m + 1, self@.len() as int);
                    assert(self@.take(self@.len() as int) =~= self@);
                }
            }
            bytes = bytes + w;
            m = m + 1;
        }
        proof {
            lemma_utf8_len_prefix(self@, m as int, self@.len() as int);
            assert(self@.take(self@.len() as int) =~= self@);
        }
        let mut s = String::from_str("ck:");
        s.append(self.0.as_str().substring_char(0, m));
        proof {
            reveal_strlit("ck:");
            assert(self@.subrange(0, m as int) =~= self@.take(m as int));
            assert(utf8_len(self@.take(m as int)) == (if utf8_len(self@) < 8 { utf8_len(self@) } else { 8 }));
        }
        s
    }
}

/// The number of bytes UTF-8 takes for a character.
pub open spec fn char_width(c: char) -> nat {
    if (c as u32) <= 0x7F {
        1
    } else if (c as u32) <= 0x7FF {
        2
    } else if (c as u32) <= 0xFFFF {
        3
    } else {
        4
    }
}

/// The length in bytes of a text's UTF-8 encoding.
pub open spec fn utf8_len(s: Seq<char>) -> nat
    decreases s.len(),
{
    if s.len() == 0 {
        0
    } else {
        utf8_len(s.drop_last()) + char_width(s.last())
    }
}

/// A longer prefix takes more bytes.
pub proof fn lemma_utf8_len_prefix(s: Seq<char>, a: int, b: int)
    requires
        0 <= a <= b <= s.len(),
    ensures
        utf8_len(s.take(a)) + (b - a) <= utf8_len(s.take(b)),
    decreases b - a,
{
    if a < b {
        lemma_utf8_len_prefix(s, a, b - 1);
        assert(s.take(b).drop_last() =~= s.take(b - 1));
    }
}

/// Text equality of two strings, character by character.
fn string_eq(a: &String, b: &String) -> (r: bool)
    ensures
        r == (a@ == b@),
{
    a.eq(b)
}

/// Same data, same checksum: the checksum is a function of the data.
pub proof fn lemma_checksum_deterministic(a: serde_json::Value, b: serde_json::Value)
    requires
        a == b,
    ensures
        checksum_of(a) == checksum_of(b),
{
}

/// A checksum is never empty.
pub proof fn lemma_checksum_nonempty(v: serde_json::Value)
    ensures
        checksum_of(v).len() > 0,
{
    lemma_hex_nonempty(text_hash(json_text(v)) as nat);
}


// ─── KernelStamp ─────────────────────────────────────────────────────────────

/// Proof that the kernel validated a materializer's output.
#[derive(Debug)]
pub struct KernelStamp {
    pub stamped_at_lamport: u64,
    pub pipeline_version: u16,
    /// Digest of (projection id, checksum, range bounds), in hexadecimal.
    pub stamp_hash: String,
}

impl Clone for KernelStamp {
    fn clone(&self) -> (r: Self)
        ensures
            r == *self,
    {
        KernelStamp {
            stamped_at_lamport: self.stamped_at_lamport,
            pipeline_version: self.pipeline_version,
            stamp_hash: self.stamp_hash.clone(),
        }
    }
}

impl KernelStamp {
    /// Stamp a projection: its id, checksum and range are hashed together.
    pub fn new(projection_id: &str, checksum: &ProjectionChecksum, event_range: &EventRange, lamport: u64) -> (r: Self)
        ensures
            r.stamped_at_lamport == lamport,
            r.pipeline_version == 1,
            stamp_text(r.stamp_hash@, projection_id@, checksum@, event_range.from_lamport, event_range.to_lamport),
    {
        let digest = hash_stamp(projection_id, checksum.0.as_str(), event_range.from_lamport, event_range.to_lamport);
        let mut text = String::new();
        push_hex(&mut text, digest);
        KernelStamp { stamped_at_lamport: lamport, pipeline_version: 1, stamp_hash: text }
    }

    /// A stamp is valid when it carries a digest.
    pub fn is_valid(&self) -> (r: bool)
        ensures
            r == (self.stamp_hash@.len() > 0),
    {
        !self.stamp_hash.as_str().is_empty()
    }
}

/// Every stamp that `KernelStamp::new` makes is valid: its digest text is
/// never empty.
pub proof fn lemma_new_stamp_valid(t: Seq<char>, projection_id: Seq<char>, checksum: Seq<char>, from: u64, to: u64)
    requires
        stamp_text(t, projection_id, checksum, from, to),
    ensures
        t.len() > 0,
{
    let (bf, bt) = choose|bf: Seq<u8>, bt: Seq<u8>|
        u64_bytes(from, bf) && u64_bytes(to, bt) && t == hex(#[trigger] stamp_hash(projection_id, checksum, bf, bt) as nat);
    lemma_hex_nonempty(stamp_hash(projection_id, checksum, bf, bt) as nat);
}

// ─── ProjectionViolation ─────────────────────────────────────────────────────

/// A projection contract was violated.
#[derive(Debug, Clone)]
pub enum ProjectionViolation {
    ChecksumMismatch { expected: ProjectionChecksum, actual: ProjectionChecksum },
    NoKernelStamp { projection_id: String },
    RebuildDivergence { projection_id: String, original: ProjectionChecksum, rebuilt: ProjectionChecksum },
    EventRangeMismatch { expected: EventRange, actual: EventRange },
    Stale { current: ProjectionVersion, latest: ProjectionVersion },
}

// ─── ProjectionContract ──────────────────────────────────────────────────────

/// What every projection view carries: its id, realm, version, the events
/// it was built from, the checksum of its data and the kernel's stamp.
#[derive(Debug)]
pub struct ProjectionContract {
    pub projection_id: String,
    pub realm_id: String,
    pub version: ProjectionVersion,
    pub event_range: EventRange,
    pub checksum: ProjectionChecksum,
    /// Present once the projection has passed through the kernel.
    pub kernel_stamp: Option<KernelStamp>,
}

impl Clone for ProjectionContract {
    fn clone(&self) -> (r: Self)
        ensures
            r == *self,
    {
        let stamp = match &self.kernel_stamp {
            Some(k) => Some(k.clone()),
            None => None,
        };
        ProjectionContract {
            projection_id: self.projection_id.clone(),
            realm_id: self.realm_id.clone(),
            version: self.version,
            event_range: self.event_range,
            checksum: self.checksum.clone(),
            kernel_stamp: stamp,
        }
    }
}

/// Does the contract pass verification against `data`: its checksum is
/// that of the data, and it carries a kernel stamp?
pub open spec fn contract_accepts(c: ProjectionContract, data: serde_json::Value) -> bool {
    c.checksum@ == checksum_of(data) && c.kernel_stamp is Some
}

impl ProjectionContract {
    /// A contract for `data`, not yet stamped.
    pub fn new(
        projection_id: &str,
        realm_id: &str,
        version: ProjectionVersion,
        event_range: EventRange,
        data: &serde_json::Value,
    ) -> (r: Self)
        ensures
            r.projection_id@ == projection_id@,
            r.realm_id@ == realm_id@,
            r.version == version,
            r.event_range == event_range,
            r.checksum@ == checksum_of(*data),
            r.kernel_stamp is None,
    {
        ProjectionContract {
            projection_id: projection_id.to_string(),
            realm_id: realm_id.to_string(),
            version,
            event_range,
            checksum: ProjectionChecksum::compute(data),
            kernel_stamp: None,
        }
    }

    /// The contract with the stamp attached.
    pub fn with_kernel_stamp(self, stamp: KernelStamp) -> (r: Self)
        ensures
            r == (ProjectionContract { kernel_stamp: Some(stamp), ..self }),
    {
        let mut c = self;
        c.kernel_stamp = Some(stamp);
        c
    }

    /// Check the contract against fresh data: the checksum must match, then
    /// the stamp must be there.
    pub fn verify(&self, data: &serde_json::Value) -> (r: Result<(), ProjectionViolation>)
        ensures
            r is Ok <==> contract_accepts(*self, *data),
            self.checksum@ != checksum_of(*data) ==> (r matches Err(
                ProjectionViolation::ChecksumMismatch { expected, actual },
            ) && expected == self.checksum && actual@ == checksum_of(*data)),
            self.checksum@ == checksum_of(*data) && self.kernel_stamp is None ==> r
                == Err::<(), ProjectionViolation>(
                ProjectionViolation::NoKernelStamp { projection_id: self.projection_id },
            ),
    {
        let fresh = ProjectionChecksum::compute(data);
        if !self.checksum.matches(&fresh) {
            return Err(ProjectionViolation::ChecksumMismatch { expected: self.checksum.clone(), actual: fresh });
        }
        if self.kernel_stamp.is_none() {
            return Err(ProjectionViolation::NoKernelStamp { projection_id: self.projection_id.clone() });
        }
        Ok(())
    }

    /// The rebuild guarantee: a projection rebuilt from the same events must
    /// have the same checksum.
    pub fn verify_rebuild_identity(&self, rebuilt_checksum: &ProjectionChecksum) -> (r: Result<(), ProjectionViolation>)
        ensures
            r is Ok <==> self.checksum@ == rebuilt_checksum@,
            self.checksum@ != rebuilt_checksum@ ==> r == Err::<(), ProjectionViolation>(
                ProjectionViolation::RebuildDivergence {
                    projection_id: self.projection_id,
                    original: self.checksum,
                    rebuilt: *rebuilt_checksum,
                },
            ),
    {
        if !self.checksum.matches(rebuilt_checksum) {
            return Err(
                ProjectionViolation::RebuildDivergence {
                    projection_id: self.projection_id.clone(),
                    original: self.checksum.clone(),
                    rebuilt: rebuilt_checksum.clone(),
                },
            );
        }
        Ok(())
    }
}


/// What the kernel stamps verifies against the same data.
pub proof fn lemma_stamped_contract_verifies(c: ProjectionContract, data: serde_json::Value)
    requires
        c.checksum@ == checksum_of(data),
        c.kernel_stamp is Some,
    ensures
        contract_accepts(c, data),
{
}

/// Data whose checksum differs from the contract's fails verification,
/// stamped or not.
pub proof fn lemma_tampered_data_rejected(c: ProjectionContract, data: serde_json::Value)
    requires
        c.checksum@ != checksum_of(data),
    ensures
        !contract_accepts(c, data),
{
}

/// A contract without a stamp never verifies.
pub proof fn lemma_unstamped_rejected(c: ProjectionContract, data: serde_json::Value)
    requires
        c.kernel_stamp is None,
    ensures
        !contract_accepts(c, data),
{
}

// ─── MaterializerKernel ──────────────────────────────────────────────────────

/// The kernel hook for the materializer: the only maker of stamped
/// contracts. Its counter advances with each stamp.
pub struct MaterializerKernel {
    current_lamport: u64,
}

impl MaterializerKernel {
    /// The kernel's counter.
    pub closed spec fn lamport(&self) -> u64 {
        self.current_lamport
    }

    pub fn new() -> (r: Self)
        ensures
            r.lamport() == 0,
    {
        MaterializerKernel { current_lamport: 0 }
    }

    /// Stamp a projection of `data` built from `event_range`: the counter
    /// advances by one, the version is the range's last counter, and the
    /// stamp hashes the id, the checksum and the range.
    pub fn stamp(
        &mut self,
        projection_id: &str,
        realm_id: &str,
        event_range: EventRange,
        data: &serde_json::Value,
    ) -> (r: ProjectionContract)
        requires
            old(self).lamport() < u64::MAX,
        ensures
            final(self).lamport() == old(self).lamport() + 1,
            r.projection_id@ == projection_id@,
            r.realm_id@ == realm_id@,
            r.version.0 == event_range.to_lamport,
            r.event_range == event_range,
            r.checksum@ == checksum_of(*data),
            r.kernel_stamp is Some,
            r.kernel_stamp->0.stamped_at_lamport == final(self).lamport(),
            r.kernel_stamp->0.pipeline_version == 1,
            stamp_text(r.kernel_stamp->0.stamp_hash@, projection_id@, checksum_of(*data), event_range.from_lamport, event_range.to_lamport),
    {
        self.current_lamport = self.current_lamport + 1;
        let version = ProjectionVersion::from_lamport(event_range.to_lamport);
        let mut contract = ProjectionContract::new(projection_id, realm_id, version, event_range, data);
        let stamp = KernelStamp::new(projection_id, &contract.checksum, &event_range, self.current_lamport);
        contract.kernel_stamp = Some(stamp);
        contract
    }

    /// Check a contract against data, as `ProjectionContract::verify` does.
    pub fn verify_contract(&self, contract: &ProjectionContract, data: &serde_json::Value) -> (r: Result<
        (),
        ProjectionViolation,
    >)
        ensures
            r is Ok <==> contract_accepts(*contract, *data),
            contract.checksum@ != checksum_of(*data) ==> (r matches Err(
                ProjectionViolation::ChecksumMismatch { expected, actual },
            ) && expected == contract.checksum && actual@ == checksum_of(*data)),
            contract.checksum@ == checksum_of(*data) && contract.kernel_stamp is None ==> r
                == Err::<(), ProjectionViolation>(
                ProjectionViolation::NoKernelStamp { projection_id: contract.projection_id },
            ),
    {
        contract.verify(data)
    }

    pub fn current_lamport(&self) -> (r: u64)
        ensures
            r == self.lamport(),
    {
        self.current_lamport
    }
}

impl Default for MaterializerKernel {
    fn default() -> (r: Self)
        ensures
            r.lamport() == 0,
    {
        Self::new()
    }
}

// ─── RebuildProof / RebuildLog ───────────────────────────────────────────────

/// The record of one rebuild of a projection from the ledger.
#[derive(Debug)]
pub struct RebuildProof {
    pub projection_id: String,
    pub event_range: EventRange,
    pub checksum: ProjectionChecksum,
    pub rebuilt_at_lamport: u64,
    /// Did the rebuild give the original checksum?
    pub identity_confirmed: bool,
}

impl Clone for RebuildProof {
    fn clone(&self) -> (r: Self)
        ensures
            r == *self,
    {
        RebuildProof {
            projection_id: self.projection_id.clone(),
            event_range: self.event_range,
            checksum: self.checksum.clone(),
            rebuilt_at_lamport: self.rebuilt_at_lamport,
            identity_confirmed: self.identity_confirmed,
        }
    }
}

impl RebuildProof {
    pub fn new(
        projection_id: &str,
        event_range: EventRange,
        checksum: ProjectionChecksum,
        lamport: u64,
        identity_confirmed: bool,
    ) -> (r: Self)
        ensures
            r.projection_id@ == projection_id@,
            r.event_range == event_range,
            r.checksum == checksum,
            r.rebuilt_at_lamport == lamport,
            r.identity_confirmed == identity_confirmed,
    {
        RebuildProof {
            projection_id: projection_id.to_string(),
            event_range,
            checksum,
            rebuilt_at_lamport: lamport,
            identity_confirmed,
        }
    }
}

/// The rebuilds of projections, in the order they were recorded.
#[derive(Debug)]
pub struct RebuildLog {
    proofs: Vec<RebuildProof>,
}

impl View for RebuildLog {
    type V = Seq<RebuildProof>;

    closed spec fn view(&self) -> Seq<RebuildProof> {
        self.proofs@
    }
}

/// The rebuilds that did not give the original checksum.
pub open spec fn failed_rebuilds(log: Seq<RebuildProof>) -> Seq<RebuildProof> {
    log.filter(|p: RebuildProof| !p.identity_confirmed)
}

/// Did every rebuild give the original checksum?
pub open spec fn all_rebuilds_confirmed(log: Seq<RebuildProof>) -> bool {
    forall|i: int| 0 <= i < log.len() ==> #[trigger] log[i].identity_confirmed
}

impl RebuildLog {
    pub fn new() -> (r: Self)
        ensures
            r@ == Seq::<RebuildProof>::empty(),
    {
        RebuildLog { proofs: Vec::new() }
    }

    pub fn record(&mut self, proof: RebuildProof)
        ensures
            final(self)@ == old(self)@.push(proof),
    {
        self.proofs.push(proof);
    }

    /// The failed rebuilds, in order.
    pub fn failures(&self) -> (r: Vec<&RebuildProof>)
        ensures
            r@.map_values(|p: &RebuildProof| *p) == failed_rebuilds(self@),
    {
        let ghost pred = |p: RebuildProof| !p.identity_confirmed;
        let mut out: Vec<&RebuildProof> = Vec::new();
        let mut k: usize = 0;
        while k < self.proofs.len()
            invariant
                k <= self.proofs@.len(),
                pred == (|p: RebuildProof| !p.identity_confirmed),
                out@.map_values(|p: &RebuildProof| *p) == self.proofs@.take(k as int).filter(pred),
            decreases self.proofs@.len() - k,
        {
            proof {
                lemma_filter_take_succ(self.proofs@, k as int, pred);
            }
            let p = &self.proofs[k];
            if !p.identity_confirmed {
                let ghost before = out@;
                out.push(p);
                proof {
                    assert(out@.map_values(|p: &RebuildProof| *p) =~= before.map_values(|p: &RebuildProof| *p).push(*p));
                }
            }
            k = k + 1;
        }
        assert(self.proofs@.take(self.proofs@.len() as int) =~= self.proofs@);
        out
    }

    /// Did every recorded rebuild give the original checksum?
    pub fn all_confirmed(&self) -> (r: bool)
        ensures
            r == all_rebuilds_confirmed(self@),
    {
        let mut k: usize = 0;
        while k < self.proofs.len()
            invariant
                k <= self.proofs@.len(),
                forall|i: int| 0 <= i < k ==> #[trigger] self.proofs@[i].identity_confirmed,
            decreases self.proofs@.len() - k,
        {
            if !self.proofs[k].identity_confirmed {
                return false;
            }
            k = k + 1;
        }
        true
    }

    pub fn count(&self) -> (r: usize)
        ensures
            r == self@.len(),
    {
        self.proofs.len()
    }
}

impl Default for RebuildLog {
    fn default() -> (r: Self)
        ensures
            r@ == Seq::<RebuildProof>::empty(),
    {
        Self::new()
    }
}

/// Every rebuild was confirmed exactly when none failed.
pub proof fn lemma_all_confirmed_iff_no_failures(log: Seq<RebuildProof>)
    ensures
        all_rebuilds_confirmed(log) <==> failed_rebuilds(log).len() == 0,
    decreases log.len(),
{
    let pred = |p: RebuildProof| !p.identity_confirmed;
    if log.len() > 0 {
        let init = log.drop_last();
        lemma_all_confirmed_iff_no_failures(init);
        assert(log =~= init.push(log.last()));
        init.lemma_filter_push(log.last(), pred);
        if all_rebuilds_confirmed(log) {
            assert forall|i: int| 0 <= i < init.len() implies #[trigger] init[i].identity_confirmed by {
                assert(log[i].identity_confirmed);
            }
            assert(log[log.len() - 1].identity_confirmed);
        } else if all_rebuilds_confirmed(init) {
            let j = choose|j: int| 0 <= j < log.len() && !#[trigger] log[j].identity_confirmed;
            if j < init.len() {
                assert(init[j] == log[j]);
            }
        }
    }
}

} // verus!
