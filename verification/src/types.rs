//! Domain types shared by every memory tier, and the content-addressed
//! memory identifier.
use vstd::prelude::*;
use vstd::string::*;
use vstd::utf8::encode_utf8;
use vstd::bytes::{spec_u64_to_le_bytes, u64_to_le_bytes};

verus! {

/// First 16 bytes of blake3(content ++ timestamp_ms as little-endian bytes).
pub type MemoryId = [u8; 16];

/// Number of tokens (exact or estimated).
pub type TokenCount = usize;

/// IEEE-754 binary32 bit pattern of the score 1.0, which every
/// working-memory entry carries.
pub const FULL_SCORE_BITS: u32 = 0x3F80_0000u32;

// ---------------------------------------------------------------------------
// Episode
// ---------------------------------------------------------------------------

#[derive(Debug, Clone, Copy, PartialEq, Eq, Structural)]
pub enum Role {
    User,
    Assistant,
    System,
}

/// The lower-case name of a role.
pub open spec fn role_name(r: Role) -> Seq<char> {
    match r {
        Role::User => "user"@,
        Role::Assistant => "assistant"@,
        Role::System => "system"@,
    }
}

impl Role {
    pub fn as_str(&self) -> (s: &'static str)
        ensures
            s@ == role_name(*self),
    {
        match self {
            Role::User => "user",
            Role::Assistant => "assistant",
            Role::System => "system",
        }
    }
}

#[derive(Debug, Clone)]
pub struct EpisodeMetadata {
    /// Arbitrary key/value pairs for application use.
    pub tags: Vec<String>,
    /// Entity IDs mentioned in this episode (populated by entity extraction).
    pub entity_ids: Vec<String>,
    /// Topic tags derived from content (populated by entity extraction).
    pub topic_tags: Vec<String>,
}

impl EpisodeMetadata {
    pub open spec fn is_empty_spec(&self) -> bool {
        &&& self.tags@.len() == 0
        &&& self.entity_ids@.len() == 0
        &&& self.topic_tags@.len() == 0
    }
}

impl Default for EpisodeMetadata {
    fn default() -> (m: Self)
        ensures
            m.is_empty_spec(),
    {
        EpisodeMetadata { tags: Vec::new(), entity_ids: Vec::new(), topic_tags: Vec::new() }
    }
}

#[derive(Debug, Clone)]
pub struct Episode {
    pub id: MemoryId,
    pub session_id: String,
    pub timestamp_ms: u64,
    pub role: Role,
    pub content: String,
    /// Pre-computed embedding (None = will be computed by store_episode),
    /// each component held as its IEEE-754 binary32 bit pattern.
    pub embedding: Option<Vec<u32>>,
    /// TTL in seconds from timestamp_ms. None = no expiry.
    pub ttl_secs: Option<u64>,
    pub metadata: EpisodeMetadata,
}

/// Number of characters kept in an episode preview.
pub const PREVIEW_CHARS: usize = 256;

/// The first `PREVIEW_CHARS` characters of `s` (all of it when shorter).
pub open spec fn preview_of(s: Seq<char>) -> Seq<char> {
    if s.len() <= PREVIEW_CHARS {
        s
    } else {
        s.take(PREVIEW_CHARS as int)
    }
}

/// The expiry instant of an episode: `timestamp_ms + ttl_secs * 1000`.
pub open spec fn ttl_expiry(timestamp_ms: u64, ttl_secs: Option<u64>) -> Option<int> {
    match ttl_secs {
        Some(s) => Some(timestamp_ms + s * 1000),
        None => None,
    }
}

impl Episode {
    /// An episode freshly built from its parts at the instant `timestamp_ms`.
    pub open spec fn is_fresh(
        &self,
        session_id: Seq<char>,
        role: Role,
        content: Seq<char>,
        timestamp_ms: u64,
    ) -> bool {
        &&& self.id@ == memory_id_of(content, timestamp_ms)
        &&& self.session_id@ == session_id
        &&& self.timestamp_ms == timestamp_ms
        &&& self.role == role
        &&& self.content@ == content
        &&& self.embedding is None
        &&& self.ttl_secs is None
        &&& self.metadata.is_empty_spec()
    }

    /// Builds an episode stamped with the current wall-clock time.
    pub fn new(session_id: &str, role: Role, content: &str) -> (ep: Self)
        ensures
            ep.is_fresh(session_id@, role, content@, ep.timestamp_ms),
            exists|since_epoch: Option<std::time::Duration>| #[trigger] clock_millis(since_epoch) == ep.timestamp_ms,
    {
        let timestamp_ms = unix_millis_now();
        Self::new_at(session_id, role, content, timestamp_ms)
    }

    /// Builds an episode stamped with the given instant.
    pub fn new_at(session_id: &str, role: Role, content: &str, timestamp_ms: u64) -> (ep: Self)
        ensures
            ep.is_fresh(session_id@, role, content@, timestamp_ms),
    {
        let id = compute_memory_id(content, timestamp_ms);
        Episode {
            id,
            session_id: String::from_str(session_id),
            timestamp_ms,
            role,
            content: String::from_str(content),
            embedding: None,
            ttl_secs: None,
            metadata: EpisodeMetadata::default(),
        }
    }

    /// First 256 chars of content for use as a preview / ANN payload.
    pub fn preview(&self) -> (p: &str)
        ensures
            p@ == preview_of(self.content@),
            p@ == self.content@.take(if self.content@.len() <= 256 { self.content@.len() as int } else { 256 }),
    {
        let s = self.content.as_str();
        let n = s.unicode_len();
        let end = if n < PREVIEW_CHARS {
            n
        } else {
            PREVIEW_CHARS
        };
        let p = s.substring_char(0, end);
        assert(p@ =~= preview_of(self.content@));
        proof {
            lemma_preview_is_prefix(self.content@);
        }
        p
    }

    /// TTL expiry timestamp in ms. None if no TTL set.
    pub fn ttl_expires_ms(&self) -> (e: Option<u64>)
        requires
            ttl_expiry(self.timestamp_ms, self.ttl_secs) matches Some(t) ==> t <= u64::MAX,
        ensures
            e matches Some(t) ==> ttl_expiry(self.timestamp_ms, self.ttl_secs) == Some(t as int),
            e matches Some(t) ==> t == self.timestamp_ms + self.ttl_secs->0 * 1000,
            e is None <==> self.ttl_secs is None,
    {
        match self.ttl_secs {
            Some(s) => {
                assert(s * 1000 <= u64::MAX);
                Some(self.timestamp_ms + s * 1000)
            },
            None => None,
        }
    }
}

/// A preview is the start of the content: its first 256 characters, or all
/// of it when shorter.
pub proof fn lemma_preview_is_prefix(content: Seq<char>)
    ensures
        preview_of(content).len() == if content.len() <= 256 { content.len() } else { 256 },
        forall|i: int| 0 <= i < preview_of(content).len() ==> #[trigger] preview_of(content)[i] == content[i],
        preview_of(content) == content.take(if content.len() <= 256 { content.len() as int } else { 256 }),
{
    assert(preview_of(content) =~= content.take(if content.len() <= 256 { content.len() as int } else { 256 }));
}

/// An episode with a TTL expires `ttl_secs` seconds (in milliseconds) after
/// its timestamp, never before it; one without a TTL never expires.
pub proof fn lemma_ttl_expiry_adds_ttl(timestamp_ms: u64, ttl_secs: u64)
    ensures
        ttl_expiry(timestamp_ms, Some(ttl_secs)) == Some(timestamp_ms + ttl_secs * 1000),
        ttl_expiry(timestamp_ms, Some(ttl_secs))->0 >= timestamp_ms,
        ttl_expiry(timestamp_ms, None) is None,
{
}

// ---------------------------------------------------------------------------
// Entity and Fact
// ---------------------------------------------------------------------------

#[derive(Debug, Clone)]
pub enum EntityKind {
    Person,
    Organization,
    Location,
    Event,
    Object,
    Concept,
    Custom(String),
}

/// The name of an entity kind: fixed for the built-in kinds, the given text
/// for a custom one.
pub open spec fn entity_kind_name(k: EntityKind) -> Seq<char> {
    match k {
        EntityKind::Person => "person"@,
        EntityKind::Organization => "organization"@,
        EntityKind::Location => "location"@,
        EntityKind::Event => "event"@,
        EntityKind::Object => "object"@,
        EntityKind::Concept => "concept"@,
        EntityKind::Custom(s) => s@,
    }
}

/// Two entity kinds are the same kind: the same built-in kind, or custom
/// kinds with the same text.
pub open spec fn same_entity_kind(a: EntityKind, b: EntityKind) -> bool {
    match a {
        EntityKind::Person => b is Person,
        EntityKind::Organization => b is Organization,
        EntityKind::Location => b is Location,
        EntityKind::Event => b is Event,
        EntityKind::Object => b is Object,
        EntityKind::Concept => b is Concept,
        EntityKind::Custom(x) => b matches EntityKind::Custom(y) && x@ == y@,
    }
}

impl PartialEq for EntityKind {
    fn eq(&self, other: &Self) -> (r: bool) {
        match (self, other) {
            (EntityKind::Person, EntityKind::Person) => true,
            (EntityKind::Organization, EntityKind::Organization) => true,
            (EntityKind::Location, EntityKind::Location) => true,
            (EntityKind::Event, EntityKind::Event) => true,
            (EntityKind::Object, EntityKind::Object) => true,
            (EntityKind::Concept, EntityKind::Concept) => true,
            (EntityKind::Custom(a), EntityKind::Custom(b)) => *a == *b,
            _ => false,
        }
    }
}

impl vstd::std_specs::cmp::PartialEqSpecImpl for EntityKind {
    open spec fn obeys_eq_spec() -> bool {
        true
    }

    open spec fn eq_spec(&self, other: &EntityKind) -> bool {
        same_entity_kind(*self, *other)
    }
}

impl EntityKind {
    pub fn as_str(&self) -> (s: &str)
        ensures
            s@ == entity_kind_name(*self),
    {
        match self {
            EntityKind::Person => "person",
            EntityKind::Organization => "organization",
            EntityKind::Location => "location",
            EntityKind::Event => "event",
            EntityKind::Object => "object",
            EntityKind::Concept => "concept",
            EntityKind::Custom(s) => s.as_str(),
        }
    }
}

#[verifier::external_type_specification]
#[verifier::external_body]
pub struct ExJsonValue(serde_json::Value);

#[derive(Debug)]
pub struct Entity {
    /// Format: "{kind}:{canonical_name}", e.g. "person:alice".
    pub id: String,
    pub kind: EntityKind,
    pub canonical_name: String,
    pub aliases: Vec<String>,
    pub attributes: serde_json::Value,
    pub first_seen_ms: u64,
    pub last_seen_ms: u64,
    pub mention_count: u32,
}

/// Subject-Predicate-Object fact with bi-temporal validity.
#[derive(Debug, Clone)]
pub struct Fact {
    pub id: String,
    pub subject_entity_id: String,
    pub predicate: String,
    pub object_entity_id: Option<String>,
    pub object_literal: Option<String>,
    /// IEEE-754 binary32 bit pattern of the confidence.
    pub confidence: u32,
    pub source_episode_ids: Vec<MemoryId>,
    /// Bi-temporal: when this fact became valid (ms).
    pub valid_from_ms: Option<u64>,
    /// Bi-temporal: when this fact stopped being valid (ms). None = still valid.
    pub valid_until_ms: Option<u64>,
}

// ---------------------------------------------------------------------------
// Retrieval results
// ---------------------------------------------------------------------------

#[derive(Debug, Clone, Copy, PartialEq, Eq, Structural)]
pub enum MemoryTier {
    Working,
    Fact,
    Relationship,
}

/// Metadata attached to a retrieved memory: JSON `null`, or a JSON object
/// whose members are all strings, in insertion order.
#[derive(Debug, Clone)]
pub enum MemoryMetadata {
    Null,
    Object(Vec<(String, String)>),
}

impl MemoryMetadata {
    /// `None` for null, else the (key, value) texts of the object's members.
    pub open spec fn members(&self) -> Option<Seq<(Seq<char>, Seq<char>)>> {
        match self {
            MemoryMetadata::Null => None,
            MemoryMetadata::Object(m) => Some(m@.map_values(|kv: (String, String)| (kv.0@, kv.1@))),
        }
    }
}

#[derive(Debug, Clone)]
pub struct RetrievedMemory {
    pub id: MemoryId,
    pub content: String,
    /// IEEE-754 binary32 bit pattern of the relevance score in [0.0, 1.0].
    pub score: u32,
    pub tier: MemoryTier,
    pub timestamp_ms: u64,
    pub metadata: MemoryMetadata,
}

#[derive(Debug, Clone)]
pub struct AssembledContext {
    /// Ready-to-prepend string for the LLM prompt.
    pub prompt_prefix: String,
    pub tokens_used: TokenCount,
    /// Source memories included (for attribution and debugging).
    pub sources: Vec<RetrievedMemory>,
    /// True if some memories were dropped to fit the budget.
    pub truncated: bool,
}

// ---------------------------------------------------------------------------
// Helpers
// ---------------------------------------------------------------------------

/// The blake3 digest (32 bytes) of `data`.
pub uninterp spec fn blake3_digest(data: Seq<u8>) -> Seq<u8>;

/// The bytes hashed for a memory id: UTF-8 content, then the timestamp as
/// 8 little-endian bytes.
pub open spec fn memory_id_input(content: Seq<char>, timestamp_ms: u64) -> Seq<u8> {
    encode_utf8(content) + spec_u64_to_le_bytes(timestamp_ms)
}

/// A memory id: the first 16 bytes of the blake3 digest of its input.
pub open spec fn memory_id_of(content: Seq<char>, timestamp_ms: u64) -> Seq<u8> {
    blake3_digest(memory_id_input(content, timestamp_ms)).take(16)
}

/// `blake3::hash`: the 32-byte blake3 digest of `data`, a function of the
/// bytes alone (hashing them at once or in pieces gives the same digest).
#[verifier::external_body]
fn blake3_hash(data: &[u8]) -> (out: [u8; 32])
    ensures
        out@ == blake3_digest(data@),
{
    *blake3::hash(data).as_bytes()
}

/// Compute a 16-byte MemoryId as the first 16 bytes of blake3(content || timestamp_ms_le).
pub fn compute_memory_id(content: &str, timestamp_ms: u64) -> (id: MemoryId)
    ensures
        id@ == memory_id_of(content@, timestamp_ms),
{
    let bytes = content.as_bytes();
    let ts = u64_to_le_bytes(timestamp_ms);
    let mut input: Vec<u8> = Vec::new();
    for i in 0..bytes.len()
        invariant
            input@ == bytes@.take(i as int),
    {
        input.push(bytes[i]);
        assert(bytes@.take(i + 1) =~= bytes@.take(i as int).push(bytes@[i as int]));
    }
    assert(bytes@.take(bytes@.len() as int) =~= bytes@);
    for i in 0..ts.len()
        invariant
            input@ == bytes@ + ts@.take(i as int),
    {
        input.push(ts[i]);
        assert(ts@.take(i + 1) =~= ts@.take(i as int).push(ts@[i as int]));
        assert(bytes@ + ts@.take(i + 1) =~= (bytes@ + ts@.take(i as int)).push(ts@[i as int]));
    }
    assert(ts@.take(ts@.len() as int) =~= ts@);
    assert(input@ =~= memory_id_input(content@, timestamp_ms));
    let hash = blake3_hash(input.as_slice());
    let mut id: MemoryId = [0u8; 16];
    for i in 0..16
        invariant
            hash@ == blake3_digest(memory_id_input(content@, timestamp_ms)),
            id@.len() == 16,
            forall|j: int| 0 <= j < i ==> id@[j] == hash@[j],
    {
        id[i] = hash[i];
    }
    assert(id@ =~= memory_id_of(content@, timestamp_ms));
    id
}

/// The lower-case hexadecimal digit of `n` (for `n < 16`).
pub open spec fn hex_digit(n: u8) -> char {
    if n < 10 {
        (n + 48) as char
    } else {
        (n + 87) as char
    }
}

/// Lower-case hexadecimal text of `bytes`: two digits per byte, high nibble first.
pub open spec fn hex_lower(bytes: Seq<u8>) -> Seq<char>
    decreases bytes.len(),
{
    if bytes.len() == 0 {
        Seq::empty()
    } else {
        seq![hex_digit(bytes[0] / 16), hex_digit(bytes[0] % 16)] + hex_lower(bytes.drop_first())
    }
}

/// `hex::encode`: lower-case hexadecimal text, two digits per byte.
#[verifier::external_body]
fn hex_encode(bytes: &[u8]) -> (s: String)
    ensures
        s@ == hex_lower(bytes@),
{
    hex::encode(bytes)
}

pub fn memory_id_to_hex(id: &MemoryId) -> (s: String)
    ensures
        s@ == hex_lower(id@),
{
    hex_encode(id.as_slice())
}

// ---------------------------------------------------------------------------
// Wall clock
// ---------------------------------------------------------------------------

#[verifier::external_type_specification]
#[verifier::external_body]
pub struct ExSystemTime(std::time::SystemTime);

/// `std::time::SystemTime::now`: nothing is known of the instant read.
#[verifier::external_body]
fn system_time_now() -> (t: std::time::SystemTime) {
    std::time::SystemTime::now()
}

/// `SystemTime::duration_since(UNIX_EPOCH)`: `None` when the clock reads
/// before the epoch.
#[verifier::external_body]
fn since_unix_epoch(t: &std::time::SystemTime) -> (d: Option<std::time::Duration>) {
    t.duration_since(std::time::UNIX_EPOCH).ok()
}

/// The total number of whole milliseconds in a duration.
pub uninterp spec fn duration_as_millis(d: std::time::Duration) -> u128;

/// `Duration::as_millis`: the whole milliseconds the duration holds, a
/// function of the duration alone.
#[verifier::external_body]
fn duration_millis(d: &std::time::Duration) -> (ms: u128)
    ensures
        ms == duration_as_millis(*d),
{
    d.as_millis()
}

/// The millisecond timestamp of a clock reading, given as its distance from
/// the Unix epoch (`None` for a reading before it): the whole milliseconds
/// truncated to 64 bits, or 0.
pub open spec fn clock_millis(since_epoch: Option<std::time::Duration>) -> u64 {
    match since_epoch {
        Some(d) => duration_as_millis(d) as u64,
        None => 0,
    }
}

/// Milliseconds since the Unix epoch, 0 for a clock set before it; the
/// count is truncated to 64 bits.
fn unix_millis_now() -> (ms: u64)
    ensures
        exists|since_epoch: Option<std::time::Duration>| #[trigger] clock_millis(since_epoch) == ms,
{
    let now = system_time_now();
    match since_unix_epoch(&now) {
        Some(d) => {
            let ms = duration_millis(&d);
            let r: u64 = #[verifier::truncate] (ms as u64);
            assert(clock_millis(Some(d)) == r);
            r
        },
        None => {
            assert(clock_millis(None) == 0u64);
            0
        },
    }
}

} // verus!
