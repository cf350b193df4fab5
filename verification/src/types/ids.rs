//! Identifiers: 128-bit values, each kind of thing with a type of its own.
use std::str::FromStr;
use vstd::prelude::*;

verus! {

/// A 128-bit identifier. The derived order is that of the 128-bit number, which is also the
/// order of the sixteen bytes from the most significant on.
#[derive(Clone, Copy, Debug, PartialEq, Eq, Structural, PartialOrd, Ord, Hash)]
pub struct Uuid {
    pub bits: u128,
}

/// A text that is no identifier, with the reason.
#[derive(Clone, Debug, PartialEq, Eq)]
pub struct UuidError {
    pub message: String,
}

/// `bits` without its `j` lowest hexadecimal digits.
pub open spec fn without_low_digits(bits: nat, j: nat) -> nat
    decreases j,
{
    if j == 0 {
        bits
    } else {
        without_low_digits(bits, (j - 1) as nat) / 16
    }
}

/// The hexadecimal digit of `bits` at place `j`, counted from the lowest.
pub open spec fn hex_place(bits: nat, j: nat) -> nat {
    without_low_digits(bits, j) % 16
}

/// The character for a hexadecimal digit, in lower case.
pub open spec fn hex_char(d: nat) -> char {
    if d < 10 {
        (48 + d) as char
    } else {
        (87 + d) as char
    }
}

/// Which of the 32 hexadecimal digits, counted from the highest, stands at index `i` of the
/// hyphenated text.
pub open spec fn digit_at(i: int) -> int {
    if i < 8 {
        i
    } else if i < 13 {
        i - 1
    } else if i < 18 {
        i - 2
    } else if i < 23 {
        i - 3
    } else {
        i - 4
    }
}

/// The hyphenated text of an identifier: 32 lower-case hexadecimal digits in groups of
/// 8, 4, 4, 4 and 12.
pub open spec fn uuid_text(bits: u128) -> Seq<char> {
    Seq::new(
        36,
        |i: int|
            if i == 8 || i == 13 || i == 18 || i == 23 {
                '-'
            } else {
                hex_char(hex_place(bits as nat, (31 - digit_at(i)) as nat))
            },
    )
}

/// What `uuid::Uuid::parse_str` makes of a text: the identifier, or the reason why it is none.
pub uninterp spec fn uuid_parsed(text: Seq<char>) -> Result<u128, Seq<char>>;

/// `uuid::Uuid::new_v4`: 122 random bits, with version 4 and the standard variant in the
/// other six.
#[verifier::external_body]
fn random_uuid() -> (res: u128)
    ensures
        (Uuid { bits: res }).is_random(),
{
    uuid::Uuid::new_v4().as_u128()
}

/// `Display` of `uuid::Uuid`: the hyphenated text in lower case.
#[verifier::external_body]
fn hyphenated(bits: u128) -> (res: String)
    ensures
        res@ == uuid_text(bits),
{
    uuid::Uuid::from_u128(bits).to_string()
}

/// `uuid::Uuid::parse_str`: it accepts hyphenated, simple, braced and URN forms. Stated is that
/// the outcome depends on the text alone, and that the hyphenated text of an identifier gives
/// that identifier back.
#[verifier::external_body]
fn parse_uuid(text: &str) -> (res: Result<u128, String>)
    ensures
        res is Ok <==> uuid_parsed(text@) is Ok,
        res is Ok ==> res->Ok_0 == uuid_parsed(text@)->Ok_0,
        res is Err ==> res->Err_0@ == uuid_parsed(text@)->Err_0,
        forall|bits: u128| text@ == uuid_text(bits) ==> res is Ok && res->Ok_0 == bits,
{
    match uuid::Uuid::parse_str(text) {
        Ok(u) => Ok(u.as_u128()),
        Err(e) => Err(e.to_string()),
    }
}

impl Uuid {
    /// The identifier carries version 4 (random) and the standard variant.
    pub open spec fn is_random(self) -> bool {
        &&& (self.bits / 0x1000_0000_0000_0000_0000) % 16 == 4
        &&& (self.bits / 0x4000_0000_0000_0000) % 4 == 2
    }

    /// A fresh random identifier.
    pub fn new_v4() -> (res: Uuid)
        ensures
            res.is_random(),
    {
        Uuid { bits: random_uuid() }
    }

    /// The identifier with these 128 bits.
    pub fn from_u128(bits: u128) -> (res: Uuid)
        ensures
            res.bits == bits,
    {
        Uuid { bits }
    }

    /// The hyphenated text.
    pub fn to_string(&self) -> (res: String)
        ensures
            res@ == uuid_text(self.bits),
    {
        hyphenated(self.bits)
    }

    /// Reads an identifier. Its hyphenated text always gives it back.
    pub fn parse_str(text: &str) -> (res: Result<Uuid, UuidError>)
        ensures
            match res {
                Ok(id) => uuid_parsed(text@) == Ok::<u128, Seq<char>>(id.bits),
                Err(e) => uuid_parsed(text@) == Err::<u128, Seq<char>>(e.message@),
            },
            forall|id: Uuid| text@ == uuid_text(id.bits) ==> res == Ok::<Uuid, UuidError>(id),
    {
        let res = match parse_uuid(text) {
            Ok(bits) => Ok(Uuid { bits }),
            Err(message) => Err(UuidError { message }),
        };
        assert forall|id: Uuid| text@ == uuid_text(id.bits) implies res == Ok::<Uuid, UuidError>(id) by {
        }
        res
    }
}

impl FromStr for Uuid {
    type Err = UuidError;

    fn from_str(s: &str) -> Result<Self, Self::Err> {
        Uuid::parse_str(s)
    }
}

/// Dropping one more digit divides by sixteen; what is dropped is that digit.
proof fn drop_one_digit(bits: nat, j: nat)
    ensures
        without_low_digits(bits, j) == 16 * without_low_digits(bits, j + 1) + hex_place(bits, j),
{
    reveal_with_fuel(without_low_digits, 2);
}

/// Sixteen to the power of `k`.
spec fn power_of_16(k: nat) -> nat
    decreases k,
{
    if k == 0 {
        1
    } else {
        16 * power_of_16((k - 1) as nat)
    }
}

/// Nothing is left of a number below `16^n` when `n` digits are dropped.
proof fn dropping_bounds(bits: nat, n: nat, j: nat)
    requires
        bits < power_of_16(n),
        j <= n,
    ensures
        without_low_digits(bits, j) < power_of_16((n - j) as nat),
    decreases j,
{
    if j > 0 {
        dropping_bounds(bits, n, (j - 1) as nat);
        let p = power_of_16((n - j) as nat);
        let q = without_low_digits(bits, (j - 1) as nat);
        assert(q < 16 * p);
        assert(q / 16 < p);
    }
}

/// Two 128-bit numbers that agree in the 32 digits from place `j` on upwards are the same
/// without their `j` lowest digits.
proof fn same_high_digits(a: u128, b: u128, j: nat)
    requires
        j <= 32,
        forall|k: nat| j <= k < 32 ==> #[trigger] hex_place(a as nat, k) == hex_place(b as nat, k),
    ensures
        without_low_digits(a as nat, j) == without_low_digits(b as nat, j),
    decreases 32 - j,
{
    if j == 32 {
        assert(power_of_16(32) == 0x1_0000_0000_0000_0000_0000_0000_0000_0000) by {
            reveal_with_fuel(power_of_16, 33);
        }
        dropping_bounds(a as nat, 32, 32);
        dropping_bounds(b as nat, 32, 32);
        assert(power_of_16(0) == 1);
    } else {
        same_high_digits(a, b, j + 1);
        drop_one_digit(a as nat, j);
        drop_one_digit(b as nat, j);
        assert(hex_place(a as nat, j) == hex_place(b as nat, j));
    }
}

/// Where digit `d`, counted from the highest, stands in the hyphenated text.
spec fn index_of_digit(d: int) -> int {
    if d < 8 {
        d
    } else if d < 12 {
        d + 1
    } else if d < 16 {
        d + 2
    } else if d < 20 {
        d + 3
    } else {
        d + 4
    }
}

/// Different identifiers have different texts.
pub proof fn uuid_text_is_injective(a: u128, b: u128)
    requires
        uuid_text(a) == uuid_text(b),
    ensures
        a == b,
{
    assert forall|k: nat| 0 <= k < 32 implies #[trigger] hex_place(a as nat, k) == hex_place(
        b as nat,
        k,
    ) by {
        let i = index_of_digit(31 - k);
        assert(digit_at(i) == 31 - k);
        assert((31 - digit_at(i)) as nat == k);
        assert(uuid_text(a)[i] == uuid_text(b)[i]);
        let x = hex_place(a as nat, k);
        let y = hex_place(b as nat, k);
        assert(uuid_text(a)[i] == hex_char(x));
        assert(uuid_text(b)[i] == hex_char(y));
        assert(hex_char(x) as int == if x < 10 { 48 + x } else { 87 + x });
        assert(hex_char(y) as int == if y < 10 { 48 + y } else { 87 + y });
    }
    same_high_digits(a, b, 0);
}

/// Identifies a session.
#[derive(Clone, Copy, Debug, PartialEq, Eq, Structural, PartialOrd, Ord, Hash)]
pub struct SessionId(pub Uuid);

impl SessionId {
    /// A fresh random identifier.
    pub fn new() -> (res: SessionId)
        ensures
            res.0.is_random(),
    {
        SessionId(Uuid::new_v4())
    }

    /// The bare identifier.
    pub fn as_uuid(&self) -> (res: Uuid)
        ensures
            res == self.0,
    {
        self.0
    }

    /// The hyphenated text.
    pub fn to_string(&self) -> (res: String)
        ensures
            res@ == uuid_text(self.0.bits),
    {
        self.0.to_string()
    }

    /// Reads an identifier. Its hyphenated text always gives it back.
    pub fn parse_str(text: &str) -> (res: Result<SessionId, UuidError>)
        ensures
            match res {
                Ok(id) => uuid_parsed(text@) == Ok::<u128, Seq<char>>(id.0.bits),
                Err(e) => uuid_parsed(text@) == Err::<u128, Seq<char>>(e.message@),
            },
            forall|id: SessionId| text@ == uuid_text(id.0.bits) ==> res == Ok::<SessionId, UuidError>(id),
    {
        match Uuid::parse_str(text) {
            Ok(id) => {
                let res = Ok::<SessionId, UuidError>(SessionId(id));
                assert forall|own: SessionId| text@ == uuid_text(own.0.bits) implies res == Ok::<
                    SessionId,
                    UuidError,
                >(own) by {
                    assert(own.0 == id);
                }
                res
            },
            Err(e) => Err(e),
        }
    }
}

impl Default for SessionId {
    fn default() -> (res: SessionId)
        ensures
            res.0.is_random(),
    {
        SessionId::new()
    }
}

impl From<Uuid> for SessionId {
    fn from(u: Uuid) -> (res: SessionId) {
        SessionId(u)
    }
}

impl vstd::std_specs::convert::FromSpecImpl<Uuid> for SessionId {
    open spec fn obeys_from_spec() -> bool {
        true
    }

    open spec fn from_spec(u: Uuid) -> SessionId {
        SessionId(u)
    }
}

impl From<SessionId> for Uuid {
    fn from(id: SessionId) -> (res: Uuid) {
        id.0
    }
}

impl vstd::std_specs::convert::FromSpecImpl<SessionId> for Uuid {
    open spec fn obeys_from_spec() -> bool {
        true
    }

    open spec fn from_spec(id: SessionId) -> Uuid {
        id.0
    }
}

impl FromStr for SessionId {
    type Err = UuidError;

    fn from_str(s: &str) -> Result<Self, Self::Err> {
        SessionId::parse_str(s)
    }
}

/// Identifies a user.
#[derive(Clone, Copy, Debug, PartialEq, Eq, Structural, PartialOrd, Ord, Hash)]
pub struct UserId(pub Uuid);

impl UserId {
    /// A fresh random identifier.
    pub fn new() -> (res: UserId)
        ensures
            res.0.is_random(),
    {
        UserId(Uuid::new_v4())
    }

    /// The bare identifier.
    pub fn as_uuid(&self) -> (res: Uuid)
        ensures
            res == self.0,
    {
        self.0
    }

    /// The hyphenated text.
    pub fn to_string(&self) -> (res: String)
        ensures
            res@ == uuid_text(self.0.bits),
    {
        self.0.to_string()
    }

    /// Reads an identifier. Its hyphenated text always gives it back.
    pub fn parse_str(text: &str) -> (res: Result<UserId, UuidError>)
        ensures
            match res {
                Ok(id) => uuid_parsed(text@) == Ok::<u128, Seq<char>>(id.0.bits),
                Err(e) => uuid_parsed(text@) == Err::<u128, Seq<char>>(e.message@),
            },
            forall|id: UserId| text@ == uuid_text(id.0.bits) ==> res == Ok::<UserId, UuidError>(id),
    {
        match Uuid::parse_str(text) {
            Ok(id) => {
                let res = Ok::<UserId, UuidError>(UserId(id));
                assert forall|own: UserId| text@ == uuid_text(own.0.bits) implies res == Ok::<
                    UserId,
                    UuidError,
                >(own) by {
                    assert(own.0 == id);
                }
                res
            },
            Err(e) => Err(e),
        }
    }
}

impl Default for UserId {
    fn default() -> (res: UserId)
        ensures
            res.0.is_random(),
    {
        UserId::new()
    }
}

impl From<Uuid> for UserId {
    fn from(u: Uuid) -> (res: UserId) {
        UserId(u)
    }
}

impl vstd::std_specs::convert::FromSpecImpl<Uuid> for UserId {
    open spec fn obeys_from_spec() -> bool {
        true
    }

    open spec fn from_spec(u: Uuid) -> UserId {
        UserId(u)
    }
}

impl From<UserId> for Uuid {
    fn from(id: UserId) -> (res: Uuid) {
        id.0
    }
}

impl vstd::std_specs::convert::FromSpecImpl<UserId> for Uuid {
    open spec fn obeys_from_spec() -> bool {
        true
    }

    open spec fn from_spec(id: UserId) -> Uuid {
        id.0
    }
}

impl FromStr for UserId {
    type Err = UuidError;

    fn from_str(s: &str) -> Result<Self, Self::Err> {
        UserId::parse_str(s)
    }
}

/// Identifies a host.
#[derive(Clone, Copy, Debug, PartialEq, Eq, Structural, PartialOrd, Ord, Hash)]
pub struct HostId(pub Uuid);

impl HostId {
    /// A fresh random identifier.
    pub fn new() -> (res: HostId)
        ensures
            res.0.is_random(),
    {
        HostId(Uuid::new_v4())
    }

    /// The bare identifier.
    pub fn as_uuid(&self) -> (res: Uuid)
        ensures
            res == self.0,
    {
        self.0
    }

    /// The hyphenated text.
    pub fn to_string(&self) -> (res: String)
        ensures
            res@ == uuid_text(self.0.bits),
    {
        self.0.to_string()
    }

    /// Reads an identifier. Its hyphenated text always gives it back.
    pub fn parse_str(text: &str) -> (res: Result<HostId, UuidError>)
        ensures
            match res {
                Ok(id) => uuid_parsed(text@) == Ok::<u128, Seq<char>>(id.0.bits),
                Err(e) => uuid_parsed(text@) == Err::<u128, Seq<char>>(e.message@),
            },
            forall|id: HostId| text@ == uuid_text(id.0.bits) ==> res == Ok::<HostId, UuidError>(id),
    {
        match Uuid::parse_str(text) {
            Ok(id) => {
                let res = Ok::<HostId, UuidError>(HostId(id));
                assert forall|own: HostId| text@ == uuid_text(own.0.bits) implies res == Ok::<
                    HostId,
                    UuidError,
                >(own) by {
                    assert(own.0 == id);
                }
                res
            },
            Err(e) => Err(e),
        }
    }
}

impl Default for HostId {
    fn default() -> (res: HostId)
        ensures
            res.0.is_random(),
    {
        HostId::new()
    }
}

impl From<Uuid> for HostId {
    fn from(u: Uuid) -> (res: HostId) {
        HostId(u)
    }
}

impl vstd::std_specs::convert::FromSpecImpl<Uuid> for HostId {
    open spec fn obeys_from_spec() -> bool {
        true
    }

    open spec fn from_spec(u: Uuid) -> HostId {
        HostId(u)
    }
}

impl From<HostId> for Uuid {
    fn from(id: HostId) -> (res: Uuid) {
        id.0
    }
}

impl vstd::std_specs::convert::FromSpecImpl<HostId> for Uuid {
    open spec fn obeys_from_spec() -> bool {
        true
    }

    open spec fn from_spec(id: HostId) -> Uuid {
        id.0
    }
}

impl FromStr for HostId {
    type Err = UuidError;

    fn from_str(s: &str) -> Result<Self, Self::Err> {
        HostId::parse_str(s)
    }
}

/// Identifies a sandbox.
#[derive(Clone, Copy, Debug, PartialEq, Eq, Structural, PartialOrd, Ord, Hash)]
pub struct SandboxId(pub Uuid);

impl SandboxId {
    /// A fresh random identifier.
    pub fn new() -> (res: SandboxId)
        ensures
            res.0.is_random(),
    {
        SandboxId(Uuid::new_v4())
    }

    /// The bare identifier.
    pub fn as_uuid(&self) -> (res: Uuid)
        ensures
            res == self.0,
    {
        self.0
    }

    /// The hyphenated text.
    pub fn to_string(&self) -> (res: String)
        ensures
            res@ == uuid_text(self.0.bits),
    {
        self.0.to_string()
    }

    /// Reads an identifier. Its hyphenated text always gives it back.
    pub fn parse_str(text: &str) -> (res: Result<SandboxId, UuidError>)
        ensures
            match res {
                Ok(id) => uuid_parsed(text@) == Ok::<u128, Seq<char>>(id.0.bits),
                Err(e) => uuid_parsed(text@) == Err::<u128, Seq<char>>(e.message@),
            },
            forall|id: SandboxId| text@ == uuid_text(id.0.bits) ==> res == Ok::<SandboxId, UuidError>(id),
    {
        match Uuid::parse_str(text) {
            Ok(id) => {
                let res = Ok::<SandboxId, UuidError>(SandboxId(id));
                assert forall|own: SandboxId| text@ == uuid_text(own.0.bits) implies res == Ok::<
                    SandboxId,
                    UuidError,
                >(own) by {
                    assert(own.0 == id);
                }
                res
            },
            Err(e) => Err(e),
        }
    }
}

impl Default for SandboxId {
    fn default() -> (res: SandboxId)
        ensures
            res.0.is_random(),
    {
        SandboxId::new()
    }
}

impl From<Uuid> for SandboxId {
    fn from(u: Uuid) -> (res: SandboxId) {
        SandboxId(u)
    }
}

impl vstd::std_specs::convert::FromSpecImpl<Uuid> for SandboxId {
    open spec fn obeys_from_spec() -> bool {
        true
    }

    open spec fn from_spec(u: Uuid) -> SandboxId {
        SandboxId(u)
    }
}

impl From<SandboxId> for Uuid {
    fn from(id: SandboxId) -> (res: Uuid) {
        id.0
    }
}

impl vstd::std_specs::convert::FromSpecImpl<SandboxId> for Uuid {
    open spec fn obeys_from_spec() -> bool {
        true
    }

    open spec fn from_spec(id: SandboxId) -> Uuid {
        id.0
    }
}

impl FromStr for SandboxId {
    type Err = UuidError;

    fn from_str(s: &str) -> Result<Self, Self::Err> {
        SandboxId::parse_str(s)
    }
}

/// Identifies a snapshot.
#[derive(Clone, Copy, Debug, PartialEq, Eq, Structural, PartialOrd, Ord, Hash)]
pub struct SnapshotId(pub Uuid);

impl SnapshotId {
    /// A fresh random identifier.
    pub fn new() -> (res: SnapshotId)
        ensures
            res.0.is_random(),
    {
        SnapshotId(Uuid::new_v4())
    }

    /// The bare identifier.
    pub fn as_uuid(&self) -> (res: Uuid)
        ensures
            res == self.0,
    {
        self.0
    }

    /// The hyphenated text.
    pub fn to_string(&self) -> (res: String)
        ensures
            res@ == uuid_text(self.0.bits),
    {
        self.0.to_string()
    }

    /// Reads an identifier. Its hyphenated text always gives it back.
    pub fn parse_str(text: &str) -> (res: Result<SnapshotId, UuidError>)
        ensures
            match res {
                Ok(id) => uuid_parsed(text@) == Ok::<u128, Seq<char>>(id.0.bits),
                Err(e) => uuid_parsed(text@) == Err::<u128, Seq<char>>(e.message@),
            },
            forall|id: SnapshotId| text@ == uuid_text(id.0.bits) ==> res == Ok::<SnapshotId, UuidError>(id),
    {
        match Uuid::parse_str(text) {
            Ok(id) => {
                let res = Ok::<SnapshotId, UuidError>(SnapshotId(id));
                assert forall|own: SnapshotId| text@ == uuid_text(own.0.bits) implies res == Ok::<
                    SnapshotId,
                    UuidError,
                >(own) by {
                    assert(own.0 == id);
                }
                res
            },
            Err(e) => Err(e),
        }
    }
}

impl Default for SnapshotId {
    fn default() -> (res: SnapshotId)
        ensures
            res.0.is_random(),
    {
        SnapshotId::new()
    }
}

impl From<Uuid> for SnapshotId {
    fn from(u: Uuid) -> (res: SnapshotId) {
        SnapshotId(u)
    }
}

impl vstd::std_specs::convert::FromSpecImpl<Uuid> for SnapshotId {
    open spec fn obeys_from_spec() -> bool {
        true
    }

    open spec fn from_spec(u: Uuid) -> SnapshotId {
        SnapshotId(u)
    }
}

impl From<SnapshotId> for Uuid {
    fn from(id: SnapshotId) -> (res: Uuid) {
        id.0
    }
}

impl vstd::std_specs::convert::FromSpecImpl<SnapshotId> for Uuid {
    open spec fn obeys_from_spec() -> bool {
        true
    }

    open spec fn from_spec(id: SnapshotId) -> Uuid {
        id.0
    }
}

impl FromStr for SnapshotId {
    type Err = UuidError;

    fn from_str(s: &str) -> Result<Self, Self::Err> {
        SnapshotId::parse_str(s)
    }
}

/// Identifies a message.
#[derive(Clone, Copy, Debug, PartialEq, Eq, Structural, PartialOrd, Ord, Hash)]
pub struct MessageId(pub Uuid);

impl MessageId {
    /// A fresh random identifier.
    pub fn new() -> (res: MessageId)
        ensures
            res.0.is_random(),
    {
        MessageId(Uuid::new_v4())
    }

    /// The bare identifier.
    pub fn as_uuid(&self) -> (res: Uuid)
        ensures
            res == self.0,
    {
        self.0
    }

    /// The hyphenated text.
    pub fn to_string(&self) -> (res: String)
        ensures
            res@ == uuid_text(self.0.bits),
    {
        self.0.to_string()
    }

    /// Reads an identifier. Its hyphenated text always gives it back.
    pub fn parse_str(text: &str) -> (res: Result<MessageId, UuidError>)
        ensures
            match res {
                Ok(id) => uuid_parsed(text@) == Ok::<u128, Seq<char>>(id.0.bits),
                Err(e) => uuid_parsed(text@) == Err::<u128, Seq<char>>(e.message@),
            },
            forall|id: MessageId| text@ == uuid_text(id.0.bits) ==> res == Ok::<MessageId, UuidError>(id),
    {
        match Uuid::parse_str(text) {
            Ok(id) => {
                let res = Ok::<MessageId, UuidError>(MessageId(id));
                assert forall|own: MessageId| text@ == uuid_text(own.0.bits) implies res == Ok::<
                    MessageId,
                    UuidError,
                >(own) by {
                    assert(own.0 == id);
                }
                res
            },
            Err(e) => Err(e),
        }
    }
}

impl Default for MessageId {
    fn default() -> (res: MessageId)
        ensures
            res.0.is_random(),
    {
        MessageId::new()
    }
}

impl From<Uuid> for MessageId {
    fn from(u: Uuid) -> (res: MessageId) {
        MessageId(u)
    }
}

impl vstd::std_specs::convert::FromSpecImpl<Uuid> for MessageId {
    open spec fn obeys_from_spec() -> bool {
        true
    }

    open spec fn from_spec(u: Uuid) -> MessageId {
        MessageId(u)
    }
}

impl From<MessageId> for Uuid {
    fn from(id: MessageId) -> (res: Uuid) {
        id.0
    }
}

impl vstd::std_specs::convert::FromSpecImpl<MessageId> for Uuid {
    open spec fn obeys_from_spec() -> bool {
        true
    }

    open spec fn from_spec(id: MessageId) -> Uuid {
        id.0
    }
}

impl FromStr for MessageId {
    type Err = UuidError;

    fn from_str(s: &str) -> Result<Self, Self::Err> {
        MessageId::parse_str(s)
    }
}

/// Identifies a tool call.
#[derive(Clone, Copy, Debug, PartialEq, Eq, Structural, PartialOrd, Ord, Hash)]
pub struct ToolCallId(pub Uuid);

impl ToolCallId {
    /// A fresh random identifier.
    pub fn new() -> (res: ToolCallId)
        ensures
            res.0.is_random(),
    {
        ToolCallId(Uuid::new_v4())
    }

    /// The bare identifier.
    pub fn as_uuid(&self) -> (res: Uuid)
        ensures
            res == self.0,
    {
        self.0
    }

    /// The hyphenated text.
    pub fn to_string(&self) -> (res: String)
        ensures
            res@ == uuid_text(self.0.bits),
    {
        self.0.to_string()
    }

    /// Reads an identifier. Its hyphenated text always gives it back.
    pub fn parse_str(text: &str) -> (res: Result<ToolCallId, UuidError>)
        ensures
            match res {
                Ok(id) => uuid_parsed(text@) == Ok::<u128, Seq<char>>(id.0.bits),
                Err(e) => uuid_parsed(text@) == Err::<u128, Seq<char>>(e.message@),
            },
            forall|id: ToolCallId| text@ == uuid_text(id.0.bits) ==> res == Ok::<ToolCallId, UuidError>(id),
    {
        match Uuid::parse_str(text) {
            Ok(id) => {
                let res = Ok::<ToolCallId, UuidError>(ToolCallId(id));
                assert forall|own: ToolCallId| text@ == uuid_text(own.0.bits) implies res == Ok::<
                    ToolCallId,
                    UuidError,
                >(own) by {
                    assert(own.0 == id);
                }
                res
            },
            Err(e) => Err(e),
        }
    }
}

impl Default for ToolCallId {
    fn default() -> (res: ToolCallId)
        ensures
            res.0.is_random(),
    {
        ToolCallId::new()
    }
}

impl From<Uuid> for ToolCallId {
    fn from(u: Uuid) -> (res: ToolCallId) {
        ToolCallId(u)
    }
}

impl vstd::std_specs::convert::FromSpecImpl<Uuid> for ToolCallId {
    open spec fn obeys_from_spec() -> bool {
        true
    }

    open spec fn from_spec(u: Uuid) -> ToolCallId {
        ToolCallId(u)
    }
}

impl From<ToolCallId> for Uuid {
    fn from(id: ToolCallId) -> (res: Uuid) {
        id.0
    }
}

impl vstd::std_specs::convert::FromSpecImpl<ToolCallId> for Uuid {
    open spec fn obeys_from_spec() -> bool {
        true
    }

    open spec fn from_spec(id: ToolCallId) -> Uuid {
        id.0
    }
}

impl FromStr for ToolCallId {
    type Err = UuidError;

    fn from_str(s: &str) -> Result<Self, Self::Err> {
        ToolCallId::parse_str(s)
    }
}

/// Identifies a commit made by an agent.
#[derive(Clone, Copy, Debug, PartialEq, Eq, Structural, PartialOrd, Ord, Hash)]
pub struct AgentCommitId(pub Uuid);

impl AgentCommitId {
    /// A fresh random identifier.
    pub fn new() -> (res: AgentCommitId)
        ensures
            res.0.is_random(),
    {
        AgentCommitId(Uuid::new_v4())
    }

    /// The bare identifier.
    pub fn as_uuid(&self) -> (res: Uuid)
        ensures
            res == self.0,
    {
        self.0
    }

    /// The hyphenated text.
    pub fn to_string(&self) -> (res: String)
        ensures
            res@ == uuid_text(self.0.bits),
    {
        self.0.to_string()
    }

    /// Reads an identifier. Its hyphenated text always gives it back.
    pub fn parse_str(text: &str) -> (res: Result<AgentCommitId, UuidError>)
        ensures
            match res {
                Ok(id) => uuid_parsed(text@) == Ok::<u128, Seq<char>>(id.0.bits),
                Err(e) => uuid_parsed(text@) == Err::<u128, Seq<char>>(e.message@),
            },
            forall|id: AgentCommitId| text@ == uuid_text(id.0.bits) ==> res == Ok::<AgentCommitId, UuidError>(id),
    {
        match Uuid::parse_str(text) {
            Ok(id) => {
                let res = Ok::<AgentCommitId, UuidError>(AgentCommitId(id));
                assert forall|own: AgentCommitId| text@ == uuid_text(own.0.bits) implies res == Ok::<
                    AgentCommitId,
                    UuidError,
                >(own) by {
                    assert(own.0 == id);
                }
                res
            },
            Err(e) => Err(e),
        }
    }
}

impl Default for AgentCommitId {
    fn default() -> (res: AgentCommitId)
        ensures
            res.0.is_random(),
    {
        AgentCommitId::new()
    }
}

impl From<Uuid> for AgentCommitId {
    fn from(u: Uuid) -> (res: AgentCommitId) {
        AgentCommitId(u)
    }
}

impl vstd::std_specs::convert::FromSpecImpl<Uuid> for AgentCommitId {
    open spec fn obeys_from_spec() -> bool {
        true
    }

    open spec fn from_spec(u: Uuid) -> AgentCommitId {
        AgentCommitId(u)
    }
}

impl From<AgentCommitId> for Uuid {
    fn from(id: AgentCommitId) -> (res: Uuid) {
        id.0
    }
}

impl vstd::std_specs::convert::FromSpecImpl<AgentCommitId> for Uuid {
    open spec fn obeys_from_spec() -> bool {
        true
    }

    open spec fn from_spec(id: AgentCommitId) -> Uuid {
        id.0
    }
}

impl FromStr for AgentCommitId {
    type Err = UuidError;

    fn from_str(s: &str) -> Result<Self, Self::Err> {
        AgentCommitId::parse_str(s)
    }
}

/// Identifies a capture job.
#[derive(Clone, Copy, Debug, PartialEq, Eq, Structural, PartialOrd, Ord, Hash)]
pub struct CaptureJobId(pub Uuid);

impl CaptureJobId {
    /// A fresh random identifier.
    pub fn new() -> (res: CaptureJobId)
        ensures
            res.0.is_random(),
    {
        CaptureJobId(Uuid::new_v4())
    }

    /// The bare identifier.
    pub fn as_uuid(&self) -> (res: Uuid)
        ensures
            res == self.0,
    {
        self.0
    }

    /// The hyphenated text.
    pub fn to_string(&self) -> (res: String)
        ensures
            res@ == uuid_text(self.0.bits),
    {
        self.0.to_string()
    }

    /// Reads an identifier. Its hyphenated text always gives it back.
    pub fn parse_str(text: &str) -> (res: Result<CaptureJobId, UuidError>)
        ensures
            match res {
                Ok(id) => uuid_parsed(text@) == Ok::<u128, Seq<char>>(id.0.bits),
                Err(e) => uuid_parsed(text@) == Err::<u128, Seq<char>>(e.message@),
            },
            forall|id: CaptureJobId| text@ == uuid_text(id.0.bits) ==> res == Ok::<CaptureJobId, UuidError>(id),
    {
        match Uuid::parse_str(text) {
            Ok(id) => {
                let res = Ok::<CaptureJobId, UuidError>(CaptureJobId(id));
                assert forall|own: CaptureJobId| text@ == uuid_text(own.0.bits) implies res == Ok::<
                    CaptureJobId,
                    UuidError,
                >(own) by {
                    assert(own.0 == id);
                }
                res
            },
            Err(e) => Err(e),
        }
    }
}

impl Default for CaptureJobId {
    fn default() -> (res: CaptureJobId)
        ensures
            res.0.is_random(),
    {
        CaptureJobId::new()
    }
}

impl From<Uuid> for CaptureJobId {
    fn from(u: Uuid) -> (res: CaptureJobId) {
        CaptureJobId(u)
    }
}

impl vstd::std_specs::convert::FromSpecImpl<Uuid> for CaptureJobId {
    open spec fn obeys_from_spec() -> bool {
        true
    }

    open spec fn from_spec(u: Uuid) -> CaptureJobId {
        CaptureJobId(u)
    }
}

impl From<CaptureJobId> for Uuid {
    fn from(id: CaptureJobId) -> (res: Uuid) {
        id.0
    }
}

impl vstd::std_specs::convert::FromSpecImpl<CaptureJobId> for Uuid {
    open spec fn obeys_from_spec() -> bool {
        true
    }

    open spec fn from_spec(id: CaptureJobId) -> Uuid {
        id.0
    }
}

impl FromStr for CaptureJobId {
    type Err = UuidError;

    fn from_str(s: &str) -> Result<Self, Self::Err> {
        CaptureJobId::parse_str(s)
    }
}

} // verus!
