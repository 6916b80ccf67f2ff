//! Manifest field assembly: a sparse, human-authored manifest description
//! whose fields may each be absent, merged and packed into the dense
//! manifest record the device consumes. Every field of the packed record
//! must be present in the description; merging overwrites only fields the
//! other description carries.

use vstd::prelude::*;

verus! {

/// Number of entries in the manifest extension table.
pub const CHIP_MANIFEST_EXT_TABLE_COUNT: usize = 15;

/// Largest signature-verification buffer, in bytes (a 3072-bit integer).
pub const SIGVERIFY_BUFFER_BYTES: usize = 384;

/// Number of 32-bit words of a packed signature-verification buffer.
pub const SIGVERIFY_BUFFER_WORDS: usize = 96;

/// A manifest description is missing a field the packed record needs.
#[derive(Debug)]
pub enum ManifestError {
    /// Carries the name of the first missing field, in declaration order.
    MissingField(&'static str),
}

/// A signature-verification big integer, as little-endian bytes.
#[derive(Debug, Clone, PartialEq)]
pub struct ManifestSigverifyBuffer {
    /// Little-endian magnitude; at most `SIGVERIFY_BUFFER_BYTES` bytes.
    pub bytes: Vec<u8>,
}

impl ManifestSigverifyBuffer {
    /// Whether the magnitude fits the packed buffer.
    pub open spec fn wf(&self) -> bool {
        self.bytes@.len() <= SIGVERIFY_BUFFER_BYTES
    }

    /// Wraps little-endian bytes.
    pub fn new(bytes: Vec<u8>) -> (r: ManifestSigverifyBuffer)
        requires
            bytes@.len() <= SIGVERIFY_BUFFER_BYTES,
        ensures
            r.bytes == bytes,
            r.wf(),
    {
        ManifestSigverifyBuffer { bytes }
    }
}

/// The byte at `j`, reading past the end as zero.
pub open spec fn byte_or_zero(bytes: Seq<u8>, j: int) -> u8 {
    if 0 <= j < bytes.len() {
        bytes[j]
    } else {
        0
    }
}

/// The `n` little-endian 32-bit words of `bytes`, zero-padded at the top.
pub open spec fn spec_le_words(bytes: Seq<u8>, n: int) -> Seq<u32> {
    Seq::new(
        n as nat,
        |i: int|
            (byte_or_zero(bytes, 4 * i) + 0x100 * byte_or_zero(bytes, 4 * i + 1) + 0x10000
                * byte_or_zero(bytes, 4 * i + 2) + 0x1000000 * byte_or_zero(bytes, 4 * i + 3))
                as u32,
    )
}

/// Packs a little-endian byte slice into `n` 32-bit words, zero-padding
/// the most significant end.
pub fn le_bytes_to_word_arr(bytes: &[u8], n: usize) -> (r: Vec<u32>)
    requires
        bytes.len() <= 4 * n,
        4 * n <= usize::MAX,
    ensures
        r@ == spec_le_words(bytes@, n as int),
        r.len() == n,
{
    let mut r: Vec<u32> = Vec::new();
    let mut i: usize = 0;
    while i < n
        invariant
            i <= n,
            bytes.len() <= 4 * n,
            4 * n <= usize::MAX,
            r@.len() == i,
            forall|k: int| 0 <= k < i ==> r@[k] == spec_le_words(bytes@, n as int)[k],
        decreases n - i,
    {
        let b0: u32 = if 4 * i < bytes.len() {
            bytes[4 * i] as u32
        } else {
            0
        };
        let b1: u32 = if 4 * i + 1 < bytes.len() {
            bytes[4 * i + 1] as u32
        } else {
            0
        };
        let b2: u32 = if 4 * i + 2 < bytes.len() {
            bytes[4 * i + 2] as u32
        } else {
            0
        };
        let b3: u32 = if 4 * i + 3 < bytes.len() {
            bytes[4 * i + 3] as u32
        } else {
            0
        };
        let w: u32 = b0 + 0x100 * b1 + 0x10000 * b2 + 0x1000000 * b3;
        r.push(w);
        i = i + 1;
    }
    proof {
        assert(r@ =~= spec_le_words(bytes@, n as int));
    }
    r
}

/// Pads a word slice with zero words to a fixed length.
pub fn le_slice_to_arr(slice: &[u32], n: usize) -> (r: Vec<u32>)
    requires
        slice.len() <= n,
    ensures
        r.len() == n,
        forall|k: int| 0 <= k < slice.len() ==> r@[k] == slice[k],
        forall|k: int| slice.len() <= k < n ==> r@[k] == 0u32,
{
    let mut r: Vec<u32> = Vec::new();
    let mut i: usize = 0;
    while i < slice.len()
        invariant
            i <= slice.len(),
            r@.len() == i,
            forall|k: int| 0 <= k < i ==> r@[k] == slice[k],
        decreases slice.len() - i,
    {
        r.push(slice[i]);
        i = i + 1;
    }
    while r.len() < n
        invariant
            slice.len() <= r.len() <= n,
            forall|k: int| 0 <= k < slice.len() ==> r@[k] == slice[k],
            forall|k: int| slice.len() <= k < r.len() ==> r@[k] == 0u32,
        decreases n - r.len(),
    {
        r.push(0);
    }
    r
}

/// A packed signature-verification buffer: 96 little-endian words.
#[derive(Debug, Clone, PartialEq)]
pub struct SigverifyBuffer {
    pub data: Vec<u32>,
}

/// A packed key-manager binding value: 8 words.
#[derive(Debug, Clone, PartialEq)]
pub struct KeymgrBindingValue {
    pub data: Vec<u32>,
}

/// A packed 64-bit timestamp.
#[derive(Debug, Clone, Copy, PartialEq, Eq, Structural)]
pub struct Timestamp {
    pub timestamp_low: u32,
    pub timestamp_high: u32,
}

/// A packed lifecycle device identifier: 8 words.
#[derive(Debug, Clone, PartialEq)]
pub struct LifecycleDeviceId {
    pub device_id: Vec<u32>,
}

/// One packed extension-table entry.
#[derive(Debug, Clone, Copy, PartialEq, Eq, Structural)]
pub struct ManifestExtTableEntry {
    pub identifier: u32,
    pub offset: u32,
}

/// The packed extension table.
#[derive(Debug, Clone, PartialEq)]
pub struct ManifestExtTable {
    pub entries: Vec<ManifestExtTableEntry>,
}

/// Packed usage constraints.
#[derive(Debug, Clone, PartialEq)]
pub struct ManifestUsageConstraints {
    pub selector_bits: u32,
    pub device_id: LifecycleDeviceId,
    pub manuf_state_creator: u32,
    pub manuf_state_owner: u32,
    pub life_cycle_state: u32,
}

/// Packed manifest version.
#[derive(Debug, Clone, Copy, PartialEq, Eq, Structural)]
pub struct ManifestVersion {
    pub minor: u16,
    pub major: u16,
}

/// The dense manifest record the device consumes.
#[derive(Debug, Clone, PartialEq)]
pub struct Manifest {
    pub signature: SigverifyBuffer,
    pub usage_constraints: ManifestUsageConstraints,
    pub pub_key: SigverifyBuffer,
    pub address_translation: u32,
    pub identifier: u32,
    pub manifest_version: ManifestVersion,
    pub signed_region_end: u32,
    pub length: u32,
    pub version_major: u32,
    pub version_minor: u32,
    pub security_version: u32,
    pub timestamp: Timestamp,
    pub binding_value: KeymgrBindingValue,
    pub max_key_version: u32,
    pub code_start: u32,
    pub code_end: u32,
    pub entry_point: u32,
    pub extensions: ManifestExtTable,
}

/// One authored extension-table entry: absent, a bare identifier, or an
/// identifier with its offset.
#[derive(Debug, Clone, Copy, PartialEq, Eq, Structural)]
pub enum ManifestExtEntryVar {
    Empty,
    Name(u32),
    IdOffset { identifier: u32, offset: u32 },
}

/// An authored extension-table entry.
#[derive(Debug, Clone, Copy, PartialEq, Eq, Structural)]
pub struct ManifestExtTableEntryDef(pub ManifestExtEntryVar);

/// Authored usage constraints; each field may be absent.
#[derive(Debug, Clone)]
pub struct ManifestUsageConstraintsDef {
    pub selector_bits: Option<u32>,
    pub device_id: [Option<u32>; 8],
    pub manuf_state_creator: Option<u32>,
    pub manuf_state_owner: Option<u32>,
    pub life_cycle_state: Option<u32>,
}

/// Authored manifest version; each half may be absent.
#[derive(Debug, Clone)]
pub struct ManifestVersionDef {
    pub minor: Option<u16>,
    pub major: Option<u16>,
}

/// A sparse, human-authored manifest description. Every field may be
/// absent; packing demands them all.
#[derive(Debug, Clone)]
pub struct ManifestSpec {
    pub signature: Option<ManifestSigverifyBuffer>,
    pub usage_constraints: ManifestUsageConstraintsDef,
    pub pub_key: Option<ManifestSigverifyBuffer>,
    pub address_translation: Option<u32>,
    pub identifier: Option<u32>,
    pub manifest_version: ManifestVersionDef,
    pub signed_region_end: Option<u32>,
    pub length: Option<u32>,
    pub version_major: Option<u32>,
    pub version_minor: Option<u32>,
    pub security_version: Option<u32>,
    pub timestamp: [Option<u32>; 2],
    pub binding_value: [Option<u32>; 8],
    pub max_key_version: Option<u32>,
    pub code_start: Option<u32>,
    pub code_end: Option<u32>,
    pub entry_point: Option<u32>,
    pub extensions: Vec<ManifestExtTableEntryDef>,
}

/// Whether every element of an optional-word sequence is present.
pub open spec fn all_some_u32(s: Seq<Option<u32>>) -> bool {
    forall|i: int| 0 <= i < s.len() ==> s[i] is Some
}

/// The merge rule for one plain optional field: a present field of
/// `other` wins.
pub open spec fn merged<T>(mine: Option<T>, other: Option<T>) -> Option<T> {
    if other is Some {
        other
    } else {
        mine
    }
}

/// The merge rule for an optional-word array: `other` wins only when it
/// is entirely present.
pub open spec fn merged_arr<const N: usize>(
    mine: [Option<u32>; N],
    other: [Option<u32>; N],
) -> [Option<u32>; N] {
    if all_some_u32(other@) {
        other
    } else {
        mine
    }
}

/// The merge rule for one extension entry: a bare identifier in `other`
/// does not displace an entry of `mine` that already places the same
/// identifier; an absent entry of `other` changes nothing; anything else
/// in `other` wins.
pub open spec fn merged_ext(
    mine: ManifestExtTableEntryDef,
    other: ManifestExtTableEntryDef,
) -> ManifestExtTableEntryDef {
    match other.0 {
        ManifestExtEntryVar::Name(other_id) => match mine.0 {
            ManifestExtEntryVar::IdOffset { identifier, offset } => if identifier == other_id {
                mine
            } else {
                other
            },
            _ => other,
        },
        ManifestExtEntryVar::Empty => mine,
        _ => other,
    }
}

/// The merge of two authored usage-constraint blocks, field by field.
pub open spec fn merged_uc(
    mine: ManifestUsageConstraintsDef,
    other: ManifestUsageConstraintsDef,
) -> ManifestUsageConstraintsDef {
    ManifestUsageConstraintsDef {
        selector_bits: merged(mine.selector_bits, other.selector_bits),
        device_id: merged_arr(mine.device_id, other.device_id),
        manuf_state_creator: merged(mine.manuf_state_creator, other.manuf_state_creator),
        manuf_state_owner: merged(mine.manuf_state_owner, other.manuf_state_owner),
        life_cycle_state: merged(mine.life_cycle_state, other.life_cycle_state),
    }
}

impl ManifestSpec {
    /// Overwrites every field that `other` carries: plain fields are
    /// replaced when present, word arrays only when entirely present, and
    /// extension entries by the per-entry rule.
    pub fn overwrite_fields(&mut self, other: ManifestSpec)
        requires
            old(self).extensions@.len() == other.extensions@.len(),
        ensures
            final(self).signature == (if other.signature is Some {
                other.signature
            } else {
                old(self).signature
            }),
            final(self).usage_constraints == merged_uc(
                old(self).usage_constraints,
                other.usage_constraints,
            ),
            final(self).pub_key == (if other.pub_key is Some {
                other.pub_key
            } else {
                old(self).pub_key
            }),
            final(self).address_translation == merged(
                old(self).address_translation,
                other.address_translation,
            ),
            final(self).identifier == merged(old(self).identifier, other.identifier),
            final(self).manifest_version.minor == merged(
                old(self).manifest_version.minor,
                other.manifest_version.minor,
            ),
            final(self).manifest_version.major == merged(
                old(self).manifest_version.major,
                other.manifest_version.major,
            ),
            final(self).signed_region_end == merged(
                old(self).signed_region_end,
                other.signed_region_end,
            ),
            final(self).length == merged(old(self).length, other.length),
            final(self).version_major == merged(old(self).version_major, other.version_major),
            final(self).version_minor == merged(old(self).version_minor, other.version_minor),
            final(self).security_version == merged(
                old(self).security_version,
                other.security_version,
            ),
            final(self).timestamp == merged_arr(old(self).timestamp, other.timestamp),
            final(self).binding_value == merged_arr(old(self).binding_value, other.binding_value),
            final(self).max_key_version == merged(
                old(self).max_key_version,
                other.max_key_version,
            ),
            final(self).code_start == merged(old(self).code_start, other.code_start),
            final(self).code_end == merged(old(self).code_end, other.code_end),
            final(self).entry_point == merged(old(self).entry_point, other.entry_point),
            final(self).extensions@.len() == old(self).extensions@.len(),
            forall|i: int|
                0 <= i < final(self).extensions@.len() ==> final(self).extensions@[i]
                    == merged_ext(old(self).extensions@[i], other.extensions@[i]),
    {
        let merged_exts = Self::merge_extensions(&self.extensions, &other.extensions);
        if other.signature.is_some() {
            self.signature = other.signature;
        }
        if other.pub_key.is_some() {
            self.pub_key = other.pub_key;
        }
        self.overwrite_usage_constraints(other.usage_constraints);
        self.overwrite_small_fields(
            other.address_translation,
            other.identifier,
            other.signed_region_end,
            other.length,
            other.version_major,
            other.version_minor,
            other.security_version,
        );
        self.overwrite_remaining_fields(
            other.manifest_version,
            other.timestamp,
            other.binding_value,
            other.max_key_version,
            other.code_start,
            other.code_end,
            other.entry_point,
        );
        self.extensions = merged_exts;
    }

    /// Merges two extension tables entry by entry.
    fn merge_extensions(
        mine: &Vec<ManifestExtTableEntryDef>,
        other: &Vec<ManifestExtTableEntryDef>,
    ) -> (r: Vec<ManifestExtTableEntryDef>)
        requires
            mine@.len() == other@.len(),
        ensures
            r@.len() == mine@.len(),
            forall|i: int| 0 <= i < r@.len() ==> r@[i] == merged_ext(mine@[i], other@[i]),
    {
        let mut merged_exts: Vec<ManifestExtTableEntryDef> = Vec::new();
        let mut i: usize = 0;
        while i < mine.len()
            invariant
                i <= mine@.len(),
                mine@.len() == other@.len(),
                merged_exts@.len() == i,
                forall|k: int|
                    0 <= k < i ==> merged_exts@[k] == merged_ext(mine@[k], other@[k]),
            decreases mine.len() - i,
        {
            let m = mine[i];
            let theirs = other[i];
            let chosen = match theirs.0 {
                ManifestExtEntryVar::Name(other_id) => match m.0 {
                    ManifestExtEntryVar::IdOffset { identifier, offset } => if identifier
                        == other_id {
                        m
                    } else {
                        theirs
                    },
                    _ => theirs,
                },
                ManifestExtEntryVar::Empty => m,
                _ => theirs,
            };
            merged_exts.push(chosen);
            i = i + 1;
        }
        merged_exts
    }

    fn overwrite_small_fields(
        &mut self,
        address_translation: Option<u32>,
        identifier: Option<u32>,
        signed_region_end: Option<u32>,
        length: Option<u32>,
        version_major: Option<u32>,
        version_minor: Option<u32>,
        security_version: Option<u32>,
    )
        ensures
            final(self).address_translation == merged(
                old(self).address_translation,
                address_translation,
            ),
            final(self).identifier == merged(old(self).identifier, identifier),
            final(self).signed_region_end == merged(old(self).signed_region_end, signed_region_end),
            final(self).length == merged(old(self).length, length),
            final(self).version_major == merged(old(self).version_major, version_major),
            final(self).version_minor == merged(old(self).version_minor, version_minor),
            final(self).security_version == merged(old(self).security_version, security_version),
            final(self).signature == old(self).signature,
            final(self).usage_constraints == old(self).usage_constraints,
            final(self).pub_key == old(self).pub_key,
            final(self).manifest_version == old(self).manifest_version,
            final(self).timestamp == old(self).timestamp,
            final(self).binding_value == old(self).binding_value,
            final(self).max_key_version == old(self).max_key_version,
            final(self).code_start == old(self).code_start,
            final(self).code_end == old(self).code_end,
            final(self).entry_point == old(self).entry_point,
            final(self).extensions == old(self).extensions,
    {
        if address_translation.is_some() {
            self.address_translation = address_translation;
        }
        if identifier.is_some() {
            self.identifier = identifier;
        }
        if signed_region_end.is_some() {
            self.signed_region_end = signed_region_end;
        }
        if length.is_some() {
            self.length = length;
        }
        if version_major.is_some() {
            self.version_major = version_major;
        }
        if version_minor.is_some() {
            self.version_minor = version_minor;
        }
        if security_version.is_some() {
            self.security_version = security_version;
        }
    }

    fn overwrite_remaining_fields(
        &mut self,
        manifest_version: ManifestVersionDef,
        timestamp: [Option<u32>; 2],
        binding_value: [Option<u32>; 8],
        max_key_version: Option<u32>,
        code_start: Option<u32>,
        code_end: Option<u32>,
        entry_point: Option<u32>,
    )
        ensures
            final(self).manifest_version.minor == merged(
                old(self).manifest_version.minor,
                manifest_version.minor,
            ),
            final(self).manifest_version.major == merged(
                old(self).manifest_version.major,
                manifest_version.major,
            ),
            final(self).timestamp == merged_arr(old(self).timestamp, timestamp),
            final(self).binding_value == merged_arr(old(self).binding_value, binding_value),
            final(self).max_key_version == merged(old(self).max_key_version, max_key_version),
            final(self).code_start == merged(old(self).code_start, code_start),
            final(self).code_end == merged(old(self).code_end, code_end),
            final(self).entry_point == merged(old(self).entry_point, entry_point),
            final(self).signature == old(self).signature,
            final(self).usage_constraints == old(self).usage_constraints,
            final(self).pub_key == old(self).pub_key,
            final(self).address_translation == old(self).address_translation,
            final(self).identifier == old(self).identifier,
            final(self).signed_region_end == old(self).signed_region_end,
            final(self).length == old(self).length,
            final(self).version_major == old(self).version_major,
            final(self).version_minor == old(self).version_minor,
            final(self).security_version == old(self).security_version,
            final(self).extensions == old(self).extensions,
    {
        if manifest_version.minor.is_some() {
            self.manifest_version.minor = manifest_version.minor;
        }
        if manifest_version.major.is_some() {
            self.manifest_version.major = manifest_version.major;
        }
        if Self::arr2_all_some(&timestamp) {
            self.timestamp = timestamp;
        }
        if Self::arr8_all_some(&binding_value) {
            self.binding_value = binding_value;
        }
        if max_key_version.is_some() {
            self.max_key_version = max_key_version;
        }
        if code_start.is_some() {
            self.code_start = code_start;
        }
        if code_end.is_some() {
            self.code_end = code_end;
        }
        if entry_point.is_some() {
            self.entry_point = entry_point;
        }
    }

    fn overwrite_usage_constraints(&mut self, other: ManifestUsageConstraintsDef)
        ensures
            final(self).usage_constraints == merged_uc(old(self).usage_constraints, other),
            final(self).signature == old(self).signature,
            final(self).pub_key == old(self).pub_key,
            final(self).address_translation == old(self).address_translation,
            final(self).identifier == old(self).identifier,
            final(self).manifest_version == old(self).manifest_version,
            final(self).signed_region_end == old(self).signed_region_end,
            final(self).length == old(self).length,
            final(self).version_major == old(self).version_major,
            final(self).version_minor == old(self).version_minor,
            final(self).security_version == old(self).security_version,
            final(self).timestamp == old(self).timestamp,
            final(self).binding_value == old(self).binding_value,
            final(self).max_key_version == old(self).max_key_version,
            final(self).code_start == old(self).code_start,
            final(self).code_end == old(self).code_end,
            final(self).entry_point == old(self).entry_point,
            final(self).extensions == old(self).extensions,
    {
        if other.selector_bits.is_some() {
            self.usage_constraints.selector_bits = other.selector_bits;
        }
        if Self::arr8_all_some(&other.device_id) {
            self.usage_constraints.device_id = other.device_id;
        }
        if other.manuf_state_creator.is_some() {
            self.usage_constraints.manuf_state_creator = other.manuf_state_creator;
        }
        if other.manuf_state_owner.is_some() {
            self.usage_constraints.manuf_state_owner = other.manuf_state_owner;
        }
        if other.life_cycle_state.is_some() {
            self.usage_constraints.life_cycle_state = other.life_cycle_state;
        }
    }

    fn arr8_all_some(a: &[Option<u32>; 8]) -> (r: bool)
        ensures
            r == all_some_u32(a@),
    {
        let mut i: usize = 0;
        while i < 8
            invariant
                i <= 8,
                forall|k: int| 0 <= k < i ==> a@[k] is Some,
            decreases 8 - i,
        {
            if a[i].is_none() {
                return false;
            }
            i = i + 1;
        }
        true
    }

    fn arr2_all_some(a: &[Option<u32>; 2]) -> (r: bool)
        ensures
            r == all_some_u32(a@),
    {
        let mut i: usize = 0;
        while i < 2
            invariant
                i <= 2,
                forall|k: int| 0 <= k < i ==> a@[k] is Some,
            decreases 2 - i,
        {
            if a[i].is_none() {
                return false;
            }
            i = i + 1;
        }
        true
    }

    /// Whether any recorded big-integer buffers fit the packed layout.
    pub open spec fn wf_buffers(&self) -> bool {
        (self.signature matches Some(b) ==> b.wf()) && (self.pub_key matches Some(b) ==> b.wf())
    }

    /// Whether every field the packed record needs is present.
    pub open spec fn all_present(&self) -> bool {
        self.signature is Some && self.usage_constraints.selector_bits is Some && all_some_u32(
            self.usage_constraints.device_id@,
        ) && self.usage_constraints.manuf_state_creator is Some
            && self.usage_constraints.manuf_state_owner is Some
            && self.usage_constraints.life_cycle_state is Some && self.pub_key is Some
            && self.address_translation is Some && self.identifier is Some
            && self.manifest_version.minor is Some && self.manifest_version.major is Some
            && self.signed_region_end is Some && self.length is Some
            && self.version_major is Some && self.version_minor is Some
            && self.security_version is Some && all_some_u32(self.timestamp@) && all_some_u32(
            self.binding_value@,
        ) && self.max_key_version is Some && self.code_start is Some && self.code_end is Some
            && self.entry_point is Some
    }

    /// The name of the first missing field, in declaration order.
    pub open spec fn first_missing(&self) -> Seq<char> {
        if self.signature is None {
            "signature"@
        } else if self.usage_constraints.selector_bits is None {
            "selector_bits"@
        } else if !all_some_u32(self.usage_constraints.device_id@) {
            "device_id"@
        } else if self.usage_constraints.manuf_state_creator is None {
            "manuf_state_creator"@
        } else if self.usage_constraints.manuf_state_owner is None {
            "manuf_state_owner"@
        } else if self.usage_constraints.life_cycle_state is None {
            "life_cycle_state"@
        } else if self.pub_key is None {
            "pub_key"@
        } else if self.address_translation is None {
            "address_translation"@
        } else if self.identifier is None {
            "identifier"@
        } else if self.manifest_version.minor is None {
            "minor"@
        } else if self.manifest_version.major is None {
            "major"@
        } else if self.signed_region_end is None {
            "signed_region_end"@
        } else if self.length is None {
            "length"@
        } else if self.version_major is None {
            "version_major"@
        } else if self.version_minor is None {
            "version_minor"@
        } else if self.security_version is None {
            "security_version"@
        } else if !all_some_u32(self.timestamp@) {
            "timestamp"@
        } else if !all_some_u32(self.binding_value@) {
            "binding_value"@
        } else if self.max_key_version is None {
            "max_key_version"@
        } else if self.code_start is None {
            "code_start"@
        } else if self.code_end is None {
            "code_end"@
        } else {
            "entry_point"@
        }
    }

    fn words_of_arr8(a: &[Option<u32>; 8]) -> (r: Vec<u32>)
        requires
            all_some_u32(a@),
        ensures
            r@ == Seq::new(8, |i: int| a@[i]->0),
    {
        let mut r: Vec<u32> = Vec::new();
        let mut i: usize = 0;
        while i < 8
            invariant
                i <= 8,
                all_some_u32(a@),
                r@.len() == i,
                forall|k: int| 0 <= k < i ==> r@[k] == a@[k]->0,
            decreases 8 - i,
        {
            let v: u32 = match a[i] {
                Some(x) => x,
                None => 0,
            };
            r.push(v);
            i = i + 1;
        }
        proof {
            assert(r@ =~= Seq::new(8, |i: int| a@[i]->0));
        }
        r
    }

    /// The packed extension entry an authored entry yields: a bare
    /// identifier at offset zero, an identifier with its offset, or the
    /// all-zero entry.
    pub open spec fn spec_ext_entry(d: ManifestExtTableEntryDef) -> ManifestExtTableEntry {
        match d.0 {
            ManifestExtEntryVar::Name(name) => ManifestExtTableEntry { identifier: name, offset: 0 },
            ManifestExtEntryVar::IdOffset { identifier, offset } => ManifestExtTableEntry {
                identifier,
                offset,
            },
            ManifestExtEntryVar::Empty => ManifestExtTableEntry { identifier: 0, offset: 0 },
        }
    }

    /// Packs the description into the dense record. Every field must be
    /// present; the first missing one, in declaration order, is named in
    /// the error.
    pub fn unpack(self) -> (r: Result<Manifest, ManifestError>)
        requires
            self.wf_buffers(),
        ensures
            match r {
                Ok(m) => self.all_present() && m.signature.data@ == spec_le_words(
                    self.signature->0.bytes@,
                    SIGVERIFY_BUFFER_WORDS as int,
                ) && m.usage_constraints.selector_bits == self.usage_constraints.selector_bits->0
                    && m.usage_constraints.device_id.device_id@ == Seq::new(
                    8,
                    |i: int| self.usage_constraints.device_id@[i]->0,
                ) && m.usage_constraints.manuf_state_creator
                    == self.usage_constraints.manuf_state_creator->0
                    && m.usage_constraints.manuf_state_owner
                    == self.usage_constraints.manuf_state_owner->0
                    && m.usage_constraints.life_cycle_state
                    == self.usage_constraints.life_cycle_state->0 && m.pub_key.data@
                    == spec_le_words(self.pub_key->0.bytes@, SIGVERIFY_BUFFER_WORDS as int)
                    && m.address_translation == self.address_translation->0 && m.identifier
                    == self.identifier->0 && m.manifest_version.minor
                    == self.manifest_version.minor->0 && m.manifest_version.major
                    == self.manifest_version.major->0 && m.signed_region_end
                    == self.signed_region_end->0 && m.length == self.length->0 && m.version_major
                    == self.version_major->0 && m.version_minor == self.version_minor->0
                    && m.security_version == self.security_version->0 && m.timestamp.timestamp_low
                    == self.timestamp@[0]->0 && m.timestamp.timestamp_high == self.timestamp@[1]->0
                    && m.binding_value.data@ == Seq::new(8, |i: int| self.binding_value@[i]->0)
                    && m.max_key_version == self.max_key_version->0 && m.code_start
                    == self.code_start->0 && m.code_end == self.code_end->0 && m.entry_point
                    == self.entry_point->0 && m.extensions.entries@.len() == self.extensions@.len()
                    && (forall|i: int|
                    0 <= i < self.extensions@.len() ==> m.extensions.entries@[i]
                        == Self::spec_ext_entry(self.extensions@[i])),
                Err(ManifestError::MissingField(n)) => !self.all_present() && n@
                    == self.first_missing(),
            },
    {
        let signature_buf = match &self.signature {
            Some(b) => b,
            None => return Err(ManifestError::MissingField("signature")),
        };
        let selector_bits = match self.usage_constraints.selector_bits {
            Some(v) => v,
            None => return Err(ManifestError::MissingField("selector_bits")),
        };
        if !Self::arr8_all_some(&self.usage_constraints.device_id) {
            return Err(ManifestError::MissingField("device_id"));
        }
        let manuf_state_creator = match self.usage_constraints.manuf_state_creator {
            Some(v) => v,
            None => return Err(ManifestError::MissingField("manuf_state_creator")),
        };
        let manuf_state_owner = match self.usage_constraints.manuf_state_owner {
            Some(v) => v,
            None => return Err(ManifestError::MissingField("manuf_state_owner")),
        };
        let life_cycle_state = match self.usage_constraints.life_cycle_state {
            Some(v) => v,
            None => return Err(ManifestError::MissingField("life_cycle_state")),
        };
        let pub_key_buf = match &self.pub_key {
            Some(b) => b,
            None => return Err(ManifestError::MissingField("pub_key")),
        };
        let address_translation = match self.address_translation {
            Some(v) => v,
            None => return Err(ManifestError::MissingField("address_translation")),
        };
        let identifier = match self.identifier {
            Some(v) => v,
            None => return Err(ManifestError::MissingField("identifier")),
        };
        let minor = match self.manifest_version.minor {
            Some(v) => v,
            None => return Err(ManifestError::MissingField("minor")),
        };
        let major = match self.manifest_version.major {
            Some(v) => v,
            None => return Err(ManifestError::MissingField("major")),
        };
        let signed_region_end = match self.signed_region_end {
            Some(v) => v,
            None => return Err(ManifestError::MissingField("signed_region_end")),
        };
        let length = match self.length {
            Some(v) => v,
            None => return Err(ManifestError::MissingField("length")),
        };
        let version_major = match self.version_major {
            Some(v) => v,
            None => return Err(ManifestError::MissingField("version_major")),
        };
        let version_minor = match self.version_minor {
            Some(v) => v,
            None => return Err(ManifestError::MissingField("version_minor")),
        };
        let security_version = match self.security_version {
            Some(v) => v,
            None => return Err(ManifestError::MissingField("security_version")),
        };
        if !Self::arr2_all_some(&self.timestamp) {
            return Err(ManifestError::MissingField("timestamp"));
        }
        if !Self::arr8_all_some(&self.binding_value) {
            return Err(ManifestError::MissingField("binding_value"));
        }
        let max_key_version = match self.max_key_version {
            Some(v) => v,
            None => return Err(ManifestError::MissingField("max_key_version")),
        };
        let code_start = match self.code_start {
            Some(v) => v,
            None => return Err(ManifestError::MissingField("code_start")),
        };
        let code_end = match self.code_end {
            Some(v) => v,
            None => return Err(ManifestError::MissingField("code_end")),
        };
        let entry_point = match self.entry_point {
            Some(v) => v,
            None => return Err(ManifestError::MissingField("entry_point")),
        };
        let signature = SigverifyBuffer {
            data: le_bytes_to_word_arr(signature_buf.bytes.as_slice(), SIGVERIFY_BUFFER_WORDS),
        };
        let pub_key = SigverifyBuffer {
            data: le_bytes_to_word_arr(pub_key_buf.bytes.as_slice(), SIGVERIFY_BUFFER_WORDS),
        };
        let device_id = LifecycleDeviceId {
            device_id: Self::words_of_arr8(&self.usage_constraints.device_id),
        };
        let binding_value = KeymgrBindingValue { data: Self::words_of_arr8(&self.binding_value) };
        let timestamp_low: u32 = match self.timestamp[0] {
            Some(v) => v,
            None => 0,
        };
        let timestamp_high: u32 = match self.timestamp[1] {
            Some(v) => v,
            None => 0,
        };
        let mut entries: Vec<ManifestExtTableEntry> = Vec::new();
        let mut i: usize = 0;
        while i < self.extensions.len()
            invariant
                i <= self.extensions@.len(),
                entries@.len() == i,
                forall|k: int|
                    0 <= k < i ==> entries@[k] == Self::spec_ext_entry(self.extensions@[k]),
            decreases self.extensions.len() - i,
        {
            let e = match self.extensions[i].0 {
                ManifestExtEntryVar::Name(name) => ManifestExtTableEntry {
                    identifier: name,
                    offset: 0,
                },
                ManifestExtEntryVar::IdOffset { identifier, offset } => ManifestExtTableEntry {
                    identifier,
                    offset,
                },
                ManifestExtEntryVar::Empty => ManifestExtTableEntry { identifier: 0, offset: 0 },
            };
            entries.push(e);
            i = i + 1;
        }
        Ok(
            Manifest {
                signature,
                usage_constraints: ManifestUsageConstraints {
                    selector_bits,
                    device_id,
                    manuf_state_creator,
                    manuf_state_owner,
                    life_cycle_state,
                },
                pub_key,
                address_translation,
                identifier,
                manifest_version: ManifestVersion { minor, major },
                signed_region_end,
                length,
                version_major,
                version_minor,
                security_version,
                timestamp: Timestamp { timestamp_low, timestamp_high },
                binding_value,
                max_key_version,
                code_start,
                code_end,
                entry_point,
                extensions: ManifestExtTable { entries },
            },
        )
    }

    /// Records a freshly computed signature; no other field is touched.
    pub fn update_signature(&mut self, signature: ManifestSigverifyBuffer)
        ensures
            final(self).signature == Some(signature),
            final(self).pub_key == old(self).pub_key,
            final(self).length == old(self).length,
            final(self).usage_constraints == old(self).usage_constraints,
            final(self).address_translation == old(self).address_translation,
            final(self).identifier == old(self).identifier,
            final(self).manifest_version == old(self).manifest_version,
            final(self).signed_region_end == old(self).signed_region_end,
            final(self).version_major == old(self).version_major,
            final(self).version_minor == old(self).version_minor,
            final(self).security_version == old(self).security_version,
            final(self).timestamp == old(self).timestamp,
            final(self).binding_value == old(self).binding_value,
            final(self).max_key_version == old(self).max_key_version,
            final(self).code_start == old(self).code_start,
            final(self).code_end == old(self).code_end,
            final(self).entry_point == old(self).entry_point,
            final(self).extensions == old(self).extensions,
    {
        self.signature = Some(signature);
    }

    /// Records a freshly computed public key; no other field is touched.
    pub fn update_pub_key(&mut self, pub_key: ManifestSigverifyBuffer)
        ensures
            final(self).pub_key == Some(pub_key),
            final(self).signature == old(self).signature,
            final(self).length == old(self).length,
            final(self).usage_constraints == old(self).usage_constraints,
            final(self).address_translation == old(self).address_translation,
            final(self).identifier == old(self).identifier,
            final(self).manifest_version == old(self).manifest_version,
            final(self).signed_region_end == old(self).signed_region_end,
            final(self).version_major == old(self).version_major,
            final(self).version_minor == old(self).version_minor,
            final(self).security_version == old(self).security_version,
            final(self).timestamp == old(self).timestamp,
            final(self).binding_value == old(self).binding_value,
            final(self).max_key_version == old(self).max_key_version,
            final(self).code_start == old(self).code_start,
            final(self).code_end == old(self).code_end,
            final(self).entry_point == old(self).entry_point,
            final(self).extensions == old(self).extensions,
    {
        self.pub_key = Some(pub_key);
    }

    /// The recorded signature, if any.
    pub fn signature(&self) -> (r: Option<&ManifestSigverifyBuffer>)
        ensures
            match r {
                Some(s) => self.signature == Some(*s),
                None => self.signature is None,
            },
    {
        self.signature.as_ref()
    }

    /// The recorded public key, if any.
    pub fn pub_key(&self) -> (r: Option<&ManifestSigverifyBuffer>)
        ensures
            match r {
                Some(s) => self.pub_key == Some(*s),
                None => self.pub_key is None,
            },
    {
        self.pub_key.as_ref()
    }

    /// Whether the description pins the image length.
    pub fn has_length(&self) -> (r: bool)
        ensures
            r == (self.length is Some),
    {
        self.length.is_some()
    }
}

/// The little-endian bytes of a word sequence.
pub open spec fn spec_words_le_bytes(words: Seq<u32>) -> Seq<u8> {
    Seq::new(
        (4 * words.len()) as nat,
        |j: int| ((words[j / 4] >> ((8 * (j % 4)) as u32)) & 0xFF) as u8,
    )
}

/// Serializes words little-endian, least significant byte first.
pub fn words_to_le_bytes(words: &[u32]) -> (r: Vec<u8>)
    requires
        4 * words.len() <= usize::MAX,
    ensures
        r@ == spec_words_le_bytes(words@),
{
    let mut r: Vec<u8> = Vec::new();
    let mut i: usize = 0;
    while i < words.len()
        invariant
            i <= words.len(),
            4 * words.len() <= usize::MAX,
            r@.len() == 4 * i,
            forall|j: int| 0 <= j < 4 * i ==> r@[j] == spec_words_le_bytes(words@)[j],
        decreases words.len() - i,
    {
        let w = words[i];
        r.push((w & 0xFF) as u8);
        r.push(((w >> 8u32) & 0xFF) as u8);
        r.push(((w >> 16u32) & 0xFF) as u8);
        r.push(((w >> 24u32) & 0xFF) as u8);
        proof {
            let base = 4 * (i as int);
            let ii = i as int;
            assert(w >> 0u32 == w) by (bit_vector);
            assert(base / 4 == ii && base % 4 == 0) by (nonlinear_arith)
                requires
                    base == 4 * ii,
                    ii >= 0,
            ;
            assert((base + 1) / 4 == ii && (base + 1) % 4 == 1) by (nonlinear_arith)
                requires
                    base == 4 * ii,
                    ii >= 0,
            ;
            assert((base + 2) / 4 == ii && (base + 2) % 4 == 2) by (nonlinear_arith)
                requires
                    base == 4 * ii,
                    ii >= 0,
            ;
            assert((base + 3) / 4 == ii && (base + 3) % 4 == 3) by (nonlinear_arith)
                requires
                    base == 4 * ii,
                    ii >= 0,
            ;
            assert(spec_words_le_bytes(words@)[base] == (w & 0xFF) as u8);
            assert(spec_words_le_bytes(words@)[base + 1] == ((w >> 8u32) & 0xFF) as u8);
            assert(spec_words_le_bytes(words@)[base + 2] == ((w >> 16u32) & 0xFF) as u8);
            assert(spec_words_le_bytes(words@)[base + 3] == ((w >> 24u32) & 0xFF) as u8);
            assert(r@[base] == (w & 0xFF) as u8);
            assert(r@[base + 1] == ((w >> 8u32) & 0xFF) as u8);
            assert(r@[base + 2] == ((w >> 16u32) & 0xFF) as u8);
            assert(r@[base + 3] == ((w >> 24u32) & 0xFF) as u8);
            assert forall|j: int| 0 <= j < 4 * (i + 1) implies r@[j] == spec_words_le_bytes(
                words@,
            )[j] by {
                if j < base {
                } else if j == base {
                } else if j == base + 1 {
                } else if j == base + 2 {
                } else {
                    assert(j == base + 3);
                }
            }
        }
        i = i + 1;
    }
    proof {
        assert(r@ =~= spec_words_le_bytes(words@));
    }
    r
}

/// Serialization law: packing the little-endian bytes of a word sequence
/// back into as many words reproduces the words exactly.
pub proof fn lemma_words_le_bytes_round_trip(words: Seq<u32>)
    ensures
        spec_le_words(spec_words_le_bytes(words), words.len() as int) == words,
{
    let bytes = spec_words_le_bytes(words);
    assert forall|i: int| 0 <= i < words.len() implies spec_le_words(
        bytes,
        words.len() as int,
    )[i] == words[i] by {
        let w = words[i];
        assert((4 * i) / 4 == i && (4 * i) % 4 == 0);
        assert((4 * i + 1) / 4 == i && (4 * i + 1) % 4 == 1);
        assert((4 * i + 2) / 4 == i && (4 * i + 2) % 4 == 2);
        assert((4 * i + 3) / 4 == i && (4 * i + 3) % 4 == 3);
        assert(byte_or_zero(bytes, 4 * i) == ((w >> 0u32) & 0xFF) as u8);
        assert(byte_or_zero(bytes, 4 * i + 1) == ((w >> 8u32) & 0xFF) as u8);
        assert(byte_or_zero(bytes, 4 * i + 2) == ((w >> 16u32) & 0xFF) as u8);
        assert(byte_or_zero(bytes, 4 * i + 3) == ((w >> 24u32) & 0xFF) as u8);
        assert((((w >> 0u32) & 0xFF) as u8 + 0x100 * (((w >> 8u32) & 0xFF) as u8) + 0x10000 * (((w
            >> 16u32) & 0xFF) as u8) + 0x1000000 * (((w >> 24u32) & 0xFF) as u8)) as u32 == w)
            by (bit_vector);
    }
    assert(spec_le_words(bytes, words.len() as int) =~= words);
}

/// Shape of a packed record as the device lays it out: every buffer at
/// its fixed length.
pub open spec fn manifest_wf(m: Manifest) -> bool {
    m.signature.data@.len() == SIGVERIFY_BUFFER_WORDS && m.pub_key.data@.len()
        == SIGVERIFY_BUFFER_WORDS && m.usage_constraints.device_id.device_id@.len() == 8
        && m.binding_value.data@.len() == 8 && m.extensions.entries@.len()
        == CHIP_MANIFEST_EXT_TABLE_COUNT
}

impl ManifestSpec {
    fn somes_of_words(words: &[u32]) -> (r: [Option<u32>; 8])
        requires
            words.len() == 8,
        ensures
            forall|i: int| 0 <= i < 8 ==> r@[i] == Some(words[i]),
    {
        [
            Some(words[0]),
            Some(words[1]),
            Some(words[2]),
            Some(words[3]),
            Some(words[4]),
            Some(words[5]),
            Some(words[6]),
            Some(words[7]),
        ]
    }

    /// Rebuilds a fully present description from a packed record: every
    /// field becomes present, big integers as little-endian bytes, every
    /// extension entry placed with its offset.
    pub fn from_manifest(m: &Manifest) -> (r: ManifestSpec)
        requires
            manifest_wf(*m),
        ensures
            r.signature matches Some(b) && b.bytes@ == spec_words_le_bytes(m.signature.data@),
            r.pub_key matches Some(b) && b.bytes@ == spec_words_le_bytes(m.pub_key.data@),
            r.usage_constraints.selector_bits == Some(m.usage_constraints.selector_bits),
            forall|i: int|
                0 <= i < 8 ==> r.usage_constraints.device_id@[i] == Some(
                    m.usage_constraints.device_id.device_id@[i],
                ),
            r.usage_constraints.manuf_state_creator == Some(
                m.usage_constraints.manuf_state_creator,
            ),
            r.usage_constraints.manuf_state_owner == Some(m.usage_constraints.manuf_state_owner),
            r.usage_constraints.life_cycle_state == Some(m.usage_constraints.life_cycle_state),
            r.address_translation == Some(m.address_translation),
            r.identifier == Some(m.identifier),
            r.manifest_version.minor == Some(m.manifest_version.minor),
            r.manifest_version.major == Some(m.manifest_version.major),
            r.signed_region_end == Some(m.signed_region_end),
            r.length == Some(m.length),
            r.version_major == Some(m.version_major),
            r.version_minor == Some(m.version_minor),
            r.security_version == Some(m.security_version),
            r.timestamp@[0] == Some(m.timestamp.timestamp_low),
            r.timestamp@[1] == Some(m.timestamp.timestamp_high),
            forall|i: int| 0 <= i < 8 ==> r.binding_value@[i] == Some(m.binding_value.data@[i]),
            r.max_key_version == Some(m.max_key_version),
            r.code_start == Some(m.code_start),
            r.code_end == Some(m.code_end),
            r.entry_point == Some(m.entry_point),
            r.extensions@.len() == CHIP_MANIFEST_EXT_TABLE_COUNT,
            forall|i: int|
                0 <= i < r.extensions@.len() ==> r.extensions@[i].0
                    == (ManifestExtEntryVar::IdOffset {
                    identifier: m.extensions.entries@[i].identifier,
                    offset: m.extensions.entries@[i].offset,
                }),
            r.all_present(),
            r.wf_buffers(),
    {
        let sig_bytes = words_to_le_bytes(m.signature.data.as_slice());
        let key_bytes = words_to_le_bytes(m.pub_key.data.as_slice());
        let mut extensions: Vec<ManifestExtTableEntryDef> = Vec::new();
        let mut i: usize = 0;
        while i < m.extensions.entries.len()
            invariant
                i <= m.extensions.entries@.len(),
                extensions@.len() == i,
                forall|k: int|
                    0 <= k < i ==> extensions@[k].0 == (ManifestExtEntryVar::IdOffset {
                        identifier: m.extensions.entries@[k].identifier,
                        offset: m.extensions.entries@[k].offset,
                    }),
            decreases m.extensions.entries.len() - i,
        {
            let e = m.extensions.entries[i];
            extensions.push(
                ManifestExtTableEntryDef(
                    ManifestExtEntryVar::IdOffset { identifier: e.identifier, offset: e.offset },
                ),
            );
            i = i + 1;
        }
        ManifestSpec {
            signature: Some(ManifestSigverifyBuffer { bytes: sig_bytes }),
            usage_constraints: ManifestUsageConstraintsDef {
                selector_bits: Some(m.usage_constraints.selector_bits),
                device_id: Self::somes_of_words(m.usage_constraints.device_id.device_id.as_slice()),
                manuf_state_creator: Some(m.usage_constraints.manuf_state_creator),
                manuf_state_owner: Some(m.usage_constraints.manuf_state_owner),
                life_cycle_state: Some(m.usage_constraints.life_cycle_state),
            },
            pub_key: Some(ManifestSigverifyBuffer { bytes: key_bytes }),
            address_translation: Some(m.address_translation),
            identifier: Some(m.identifier),
            manifest_version: ManifestVersionDef {
                minor: Some(m.manifest_version.minor),
                major: Some(m.manifest_version.major),
            },
            signed_region_end: Some(m.signed_region_end),
            length: Some(m.length),
            version_major: Some(m.version_major),
            version_minor: Some(m.version_minor),
            security_version: Some(m.security_version),
            timestamp: [Some(m.timestamp.timestamp_low), Some(m.timestamp.timestamp_high)],
            binding_value: Self::somes_of_words(m.binding_value.data.as_slice()),
            max_key_version: Some(m.max_key_version),
            code_start: Some(m.code_start),
            code_end: Some(m.code_end),
            entry_point: Some(m.entry_point),
            extensions,
        }
    }
}

} // verus!
