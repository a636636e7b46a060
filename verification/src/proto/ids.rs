//! Identifiers and the wire timestamp, each a type of its own: a VM can never be passed where a
//! host is meant, and absence is always an `Option`.

use vstd::prelude::*;

use crate::ordered::Key;
use crate::text;
use crate::time::Duration;

verus! {

// ---------------------------------------------------------------------------
// VMs
// ---------------------------------------------------------------------------

/// Identifies one microVM for its whole life, across every host it moves to: a UUID, held as
/// the 128-bit number its sixteen bytes write, most significant byte first.
#[derive(Clone, Copy, Debug, PartialEq, Eq, PartialOrd, Ord, Hash, Structural)]
pub struct VmId {
    pub bits: u128,
}

/// Whether `bits` has the version and variant fields of a random (version 4) UUID.
pub open spec fn is_random_uuid(bits: u128) -> bool {
    &&& (bits as nat / 0x1000_0000_0000_0000_0000_u128 as nat) % 16 == 4
    &&& (bits as nat / 0x4000_0000_0000_0000_u128 as nat) % 4 == 2
}

/// The textual form of a UUID: its thirty-two hexadecimal digits in lower case, in groups of 8, 4, 4, 4
/// and 12 joined by hyphens.
pub open spec fn hyphenated(bits: u128) -> Seq<char> {
    let n = bits as nat;
    text::padded(n / 0x1_0000_0000_0000_0000_0000_0000_u128 as nat, 16, 8) + "-"@ + text::padded(
        n / 0x1_0000_0000_0000_0000_0000_u128 as nat,
        16,
        4,
    ) + "-"@ + text::padded(n / 0x1_0000_0000_0000_0000_u128 as nat, 16, 4) + "-"@ + text::padded(
        n / 0x1_0000_0000_0000_u128 as nat,
        16,
        4,
    ) + "-"@ + text::padded(n, 16, 12)
}

/// The groups of a UUID's text.
proof fn lemma_groups(bits: u128)
    ensures
        ({
            let n = bits as nat;
            let t = hyphenated(bits);
            &&& t.subrange(0, 8) == text::padded(
                n / 0x1_0000_0000_0000_0000_0000_0000_u128 as nat,
                16,
                8,
            )
            &&& t.subrange(9, 13) == text::padded(
                n / 0x1_0000_0000_0000_0000_0000_u128 as nat,
                16,
                4,
            )
            &&& t.subrange(14, 18) == text::padded(n / 0x1_0000_0000_0000_0000_u128 as nat, 16, 4)
            &&& t.subrange(19, 23) == text::padded(n / 0x1_0000_0000_0000_u128 as nat, 16, 4)
            &&& t.subrange(24, 36) == text::padded(n, 16, 12)
        }),
{
    let n = bits as nat;
    let a = n / 0x1_0000_0000_0000_0000_0000_0000_u128 as nat;
    let b = n / 0x1_0000_0000_0000_0000_0000_u128 as nat;
    let c = n / 0x1_0000_0000_0000_0000_u128 as nat;
    let d = n / 0x1_0000_0000_0000_u128 as nat;
    let t = hyphenated(bits);
    reveal_strlit("-");
    text::lemma_padded_len(a, 16, 8);
    text::lemma_padded_len(b, 16, 4);
    text::lemma_padded_len(c, 16, 4);
    text::lemma_padded_len(d, 16, 4);
    text::lemma_padded_len(n, 16, 12);
    assert(t.subrange(0, 8) =~= text::padded(a, 16, 8));
    assert(t.subrange(9, 13) =~= text::padded(b, 16, 4));
    assert(t.subrange(14, 18) =~= text::padded(c, 16, 4));
    assert(t.subrange(19, 23) =~= text::padded(d, 16, 4));
    assert(t.subrange(24, 36) =~= text::padded(n, 16, 12));
}

/// Different UUIDs have different texts.
pub proof fn law_hyphenated_is_injective(x: u128, y: u128)
    requires
        hyphenated(x) == hyphenated(y),
    ensures
        x == y,
{
    let (m, n) = (x as nat, y as nat);
    let p96 = 0x1_0000_0000_0000_0000_0000_0000_u128 as nat;
    let p80 = 0x1_0000_0000_0000_0000_0000_u128 as nat;
    let p64 = 0x1_0000_0000_0000_0000_u128 as nat;
    let p48 = 0x1_0000_0000_0000_u128 as nat;
    lemma_groups(x);
    lemma_groups(y);
    text::lemma_padded_injective(m / p96, n / p96, 16, 8);
    text::lemma_padded_injective(m / p80, n / p80, 16, 4);
    text::lemma_padded_injective(m / p64, n / p64, 16, 4);
    text::lemma_padded_injective(m / p48, n / p48, 16, 4);
    text::lemma_padded_injective(m, n, 16, 12);
    reveal_with_fuel(text::power, 13);
    assert(text::power(16, 4) == 0x1_0000);
    assert(text::power(16, 8) == 0x1_0000_0000);
    assert(text::power(16, 12) == 0x1_0000_0000_0000);
    assert(m / p96 == n / p96);
    vstd::arithmetic::div_mod::lemma_div_denominator(m as int, p80 as int, 0x1_0000);
    vstd::arithmetic::div_mod::lemma_div_denominator(n as int, p80 as int, 0x1_0000);
    assert(m / p80 == n / p80);
    vstd::arithmetic::div_mod::lemma_div_denominator(m as int, p64 as int, 0x1_0000);
    vstd::arithmetic::div_mod::lemma_div_denominator(n as int, p64 as int, 0x1_0000);
    assert(m / p64 == n / p64);
    vstd::arithmetic::div_mod::lemma_div_denominator(m as int, p48 as int, 0x1_0000);
    vstd::arithmetic::div_mod::lemma_div_denominator(n as int, p48 as int, 0x1_0000);
    assert(m / p48 == n / p48);
}

/// `uuid::Uuid::new_v4` draws a random version 4 UUID. Every draw has the version and variant
/// fields set; nothing else holds of all of them.
#[verifier::external_body]
fn draw_uuid() -> (bits: u128)
    ensures
        is_random_uuid(bits),
{
    uuid::Uuid::new_v4().as_u128()
}

/// `uuid::Uuid`'s `Display` writes the hyphenated form in lower case.
#[verifier::external_body]
fn uuid_text(bits: u128) -> (out: String)
    ensures
        out@ == hyphenated(bits),
{
    uuid::Uuid::from_u128(bits).to_string()
}

impl VmId {
    /// A fresh random VM id.
    pub fn new() -> (id: VmId)
        ensures
            is_random_uuid(id.bits),
    {
        VmId { bits: draw_uuid() }
    }

    /// Wraps an existing UUID.
    pub fn from_uuid(bits: u128) -> (id: VmId)
        ensures
            id.bits == bits,
    {
        VmId { bits }
    }

    /// The underlying UUID.
    pub fn as_uuid(&self) -> (bits: u128)
        ensures
            bits == self.bits,
    {
        self.bits
    }

    /// The id in its textual form.
    pub fn to_text(&self) -> (out: String)
        ensures
            out@ == hyphenated(self.bits),
    {
        uuid_text(self.bits)
    }
}

impl Key for VmId {
    type Model = u128;

    open spec fn key(&self) -> u128 {
        self.bits
    }

    open spec fn before(a: u128, b: u128) -> bool {
        a < b
    }

    proof fn strict_total_order(a: u128, b: u128, c: u128) {
    }

    fn precedes(&self, other: &VmId) -> bool {
        self.bits < other.bits
    }

    fn same(&self, other: &VmId) -> bool {
        self.bits == other.bits
    }
}

impl Default for VmId {
    fn default() -> (id: VmId)
        ensures
            is_random_uuid(id.bits),
    {
        VmId::new()
    }
}

// ---------------------------------------------------------------------------
// Hosts
// ---------------------------------------------------------------------------

/// Names a host of the fleet. The string is the host's own; nothing here looks inside it.
#[derive(Debug, PartialEq, Eq, PartialOrd, Ord, Hash)]
pub struct HostId {
    name: String,
}

impl View for HostId {
    type V = Seq<char>;

    /// The host's name.
    closed spec fn view(&self) -> Seq<char> {
        self.name@
    }
}

impl HostId {
    /// The host named `id`.
    pub fn new(id: &str) -> (host: HostId)
        ensures
            host@ == id@,
    {
        HostId { name: id.to_owned() }
    }

    /// The host's name.
    pub fn as_str(&self) -> (name: &str)
        ensures
            name@ == self@,
    {
        self.name.as_str()
    }
}

impl Key for HostId {
    type Model = Seq<char>;

    open spec fn key(&self) -> Seq<char> {
        self@
    }

    open spec fn before(a: Seq<char>, b: Seq<char>) -> bool {
        text::comes_before(a, b)
    }

    proof fn strict_total_order(a: Seq<char>, b: Seq<char>, c: Seq<char>) {
        text::lemma_order_total(a, b);
        if text::comes_before(a, b) && text::comes_before(b, c) {
            text::lemma_order_transitive(a, b, c);
        }
    }

    fn precedes(&self, other: &HostId) -> bool {
        text::sorts_before(&self.name, &other.name)
    }

    fn same(&self, other: &HostId) -> bool {
        self.name == other.name
    }
}

impl Clone for HostId {
    fn clone(&self) -> (copy: HostId)
        ensures
            copy == *self,
    {
        HostId { name: self.name.clone() }
    }
}

// ---------------------------------------------------------------------------
// Turns
// ---------------------------------------------------------------------------

/// Counts the turns of one VM. A turn is one unit of guest work. That no turn is in flight is
/// `None`, never turn zero.
#[derive(Clone, Copy, Debug, PartialEq, Eq, PartialOrd, Ord, Hash, Structural)]
pub struct TurnId {
    pub index: u64,
}

impl Key for TurnId {
    type Model = u64;

    open spec fn key(&self) -> u64 {
        self.index
    }

    open spec fn before(a: u64, b: u64) -> bool {
        a < b
    }

    proof fn strict_total_order(a: u64, b: u64, c: u64) {
    }

    fn precedes(&self, other: &TurnId) -> bool {
        self.index < other.index
    }

    fn same(&self, other: &TurnId) -> bool {
        self.index == other.index
    }
}

impl TurnId {
    /// The first turn.
    pub fn first() -> (id: TurnId)
        ensures
            id.index == 0,
    {
        TurnId { index: 0 }
    }

    /// The turn with this number.
    pub fn from_u64(n: u64) -> (id: TurnId)
        ensures
            id.index == n,
    {
        TurnId { index: n }
    }

    /// The turn's number.
    pub fn get(self) -> (n: u64)
        ensures
            n == self.index,
    {
        self.index
    }

    /// The turn after `id`: one higher, and the last turn follows itself.
    pub open spec fn following(id: TurnId) -> TurnId {
        if id.index < u64::MAX {
            TurnId { index: (id.index + 1) as u64 }
        } else {
            id
        }
    }

    /// The turn after this one.
    pub fn next(self) -> (id: TurnId)
        ensures
            id == TurnId::following(self),
    {
        TurnId { index: self.index.saturating_add(1) }
    }
}

// ---------------------------------------------------------------------------
// Versions and instants
// ---------------------------------------------------------------------------

/// The guest daemon's build version, as it announces itself at boot.
#[derive(Debug, PartialEq, Eq, Hash)]
pub struct AgentVersion {
    version: String,
}

/// The name under which the wire messages carry the version.
pub type GuestdVersion = AgentVersion;

impl View for AgentVersion {
    type V = Seq<char>;

    /// The version string.
    closed spec fn view(&self) -> Seq<char> {
        self.version@
    }
}

impl AgentVersion {
    /// The version `v`.
    pub fn new(v: &str) -> (version: AgentVersion)
        ensures
            version@ == v@,
    {
        AgentVersion { version: v.to_owned() }
    }

    /// The version string.
    pub fn as_str(&self) -> (v: &str)
        ensures
            v@ == self@,
    {
        self.version.as_str()
    }
}

impl Clone for AgentVersion {
    fn clone(&self) -> (copy: AgentVersion)
        ensures
            copy == *self,
    {
        AgentVersion { version: self.version.clone() }
    }
}

/// An instant as the guest's clock showed it: nanoseconds since the Unix epoch. The guest's
/// clock stands still in a snapshot, so instants from either side of a move compare only after
/// the clock has been put right.
#[derive(Clone, Copy, Debug, PartialEq, Eq, PartialOrd, Ord, Hash, Structural)]
pub struct Timestamp {
    pub nanos: u64,
}

impl Timestamp {
    /// The instant this many nanoseconds after the epoch.
    pub fn from_nanos(nanos_since_epoch: u64) -> (ts: Timestamp)
        ensures
            ts.nanos == nanos_since_epoch,
    {
        Timestamp { nanos: nanos_since_epoch }
    }

    /// Nanoseconds since the epoch.
    pub fn as_nanos(self) -> (n: u64)
        ensures
            n == self.nanos,
    {
        self.nanos
    }

    /// The span from the epoch to this instant.
    pub fn since_epoch(self) -> (d: Duration)
        ensures
            d@ == self.nanos,
    {
        Duration::from_nanos(self.nanos)
    }
}

/// The text of an id is its number: four hyphens, and around them the digits of the number of base
/// sixteen, from the most significant on.
pub proof fn law_text_of_an_id_is_its_number(bits: u128)
    ensures
        hyphenated(bits).len() == 36,
        hyphenated(bits)[8] == '-',
        hyphenated(bits)[13] == '-',
        hyphenated(bits)[18] == '-',
        hyphenated(bits)[23] == '-',
        text::digits_value(hyphenated(bits).subrange(0, 8), 16) == bits as nat
            / 0x1_0000_0000_0000_0000_0000_0000_u128 as nat,
{
    let n = bits as nat;
    let t = hyphenated(bits);
    let top = n / 0x1_0000_0000_0000_0000_0000_0000_u128 as nat;
    reveal_strlit("-");
    lemma_groups(bits);
    text::law_padded_round_trip(top, 16, 8);
    text::lemma_padded_len(n / 0x1_0000_0000_0000_0000_0000_u128 as nat, 16, 4);
    text::lemma_padded_len(n / 0x1_0000_0000_0000_0000_u128 as nat, 16, 4);
    text::lemma_padded_len(n / 0x1_0000_0000_0000_u128 as nat, 16, 4);
    text::lemma_padded_len(n, 16, 12);
    reveal_with_fuel(text::power, 9);
    assert(text::power(16, 8) == 0x1_0000_0000);
}

} // verus!
