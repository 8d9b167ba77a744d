//! Identifiers.

use crate::crypto::primitives::{sha256, sha256_digest};
use crate::text::{
    all_lower_hex, bytes_to_hex, hex, hex_is_lowercase, hex_round_trip, lowercase_hex_is_canonical,
    parse_hex, same_text, unhex,
};
use vstd::prelude::*;

verus! {

/// The Crockford base-32 digit of `d`, for `d` below 32.
pub open spec fn crockford_digit(d: int) -> char {
    if d < 10 {
        (('0' as u32) + d) as char
    } else if d < 18 {
        (('A' as u32) + (d - 10)) as char
    } else if d < 20 {
        (('J' as u32) + (d - 18)) as char
    } else if d < 22 {
        (('M' as u32) + (d - 20)) as char
    } else if d < 27 {
        (('P' as u32) + (d - 22)) as char
    } else {
        (('V' as u32) + (d - 27)) as char
    }
}

/// The value of an uppercase Crockford digit.
pub open spec fn upper_value(c: char) -> Option<int> {
    if '0' <= c <= '9' {
        Some((c as u32) - ('0' as u32))
    } else if 'A' <= c <= 'H' {
        Some((c as u32) - ('A' as u32) + 10)
    } else if 'J' <= c <= 'K' {
        Some((c as u32) - ('J' as u32) + 18)
    } else if 'M' <= c <= 'N' {
        Some((c as u32) - ('M' as u32) + 20)
    } else if 'P' <= c <= 'T' {
        Some((c as u32) - ('P' as u32) + 22)
    } else if 'V' <= c <= 'Z' {
        Some((c as u32) - ('V' as u32) + 27)
    } else {
        None
    }
}

/// The value of a Crockford digit of either case.
pub open spec fn crockford_value(c: char) -> Option<int> {
    if 'a' <= c <= 'z' {
        upper_value(((c as u32) - 32) as char)
    } else {
        upper_value(c)
    }
}

/// The last `n` base-32 digits of `v`.
pub open spec fn crockford_text(v: nat, n: nat) -> Seq<char>
    decreases n,
{
    if n == 0 {
        Seq::empty()
    } else {
        crockford_text(v / 32, (n - 1) as nat).push(crockford_digit((v % 32) as int))
    }
}

/// The number that a string of Crockford digits spells.
pub open spec fn crockford_number(s: Seq<char>) -> nat
    decreases s.len(),
{
    if s.len() == 0 {
        0
    } else {
        (crockford_number(s.drop_last()) * 32 + crockford_value(s.last())->0) as nat
    }
}

/// The 26-character text of an identifier.
pub open spec fn ulid_text(v: u128) -> Seq<char> {
    crockford_text(v as nat, 26)
}

/// The identifier that a text names: 26 Crockford digits of either case. Bits
/// above the 128th are dropped.
pub open spec fn ulid_parse(s: Seq<char>) -> Option<u128> {
    if s.len() == 26 && forall|i: int|
        0 <= i < s.len() ==> (#[trigger] crockford_value(s[i])) is Some {
        Some((crockford_number(s) as int % (u128::MAX + 1)) as u128)
    } else {
        None
    }
}

/// The last `n` bytes of `v`, most significant first.
pub open spec fn be_bytes(v: nat, n: nat) -> Seq<u8>
    decreases n,
{
    if n == 0 {
        Seq::empty()
    } else {
        be_bytes(v / 256, (n - 1) as nat).push((v % 256) as u8)
    }
}

/// The sixteen bytes of an identifier.
pub open spec fn ulid_bytes(v: u128) -> Seq<u8> {
    be_bytes(v as nat, 16)
}

proof fn crockford_round_trip(v: nat, n: nat)
    ensures
        crockford_text(v, n).len() == n,
        forall|i: int|
            0 <= i < n ==> (#[trigger] crockford_value(crockford_text(v, n)[i])) is Some,
        n == 26 && v < (u128::MAX + 1) ==> crockford_number(
            crockford_text(v, n),
        ) == v,
        v < pow32(n) ==> crockford_number(crockford_text(v, n)) == v,
    decreases n,
{
    if n > 0 {
        let rest = crockford_text(v / 32, (n - 1) as nat);
        let d = (v % 32) as int;
        crockford_round_trip(v / 32, (n - 1) as nat);
        assert(crockford_value(crockford_digit(d)) == Some(d));
        assert(crockford_text(v, n).drop_last() =~= rest);
        assert(v < pow32(n) ==> v / 32 < pow32((n - 1) as nat));
        assert forall|i: int| 0 <= i < n implies (#[trigger] crockford_value(
            crockford_text(v, n)[i],
        )) is Some by {
            if i < n - 1 {
                assert(crockford_value(rest[i]) is Some);
            }
        }
    }
    if n == 26 {
        reveal_with_fuel(pow32, 27);
        assert((u128::MAX + 1) < pow32(26));
    }
}

/// 32 to the power `n`.
pub open spec fn pow32(n: nat) -> nat
    decreases n,
{
    if n == 0 {
        1
    } else {
        32 * pow32((n - 1) as nat)
    }
}

/// Parsing the text of an identifier gives the identifier back.
pub proof fn ulid_text_round_trip(v: u128)
    ensures
        ulid_text(v).len() == 26,
        ulid_parse(ulid_text(v)) == Some(v),
{
    crockford_round_trip(v as nat, 26);
}

/// Two identifiers with the same text are the same identifier.
pub proof fn ulid_text_injective(a: u128, b: u128)
    ensures
        ulid_text(a) == ulid_text(b) <==> a == b,
{
    ulid_text_round_trip(a);
    ulid_text_round_trip(b);
}

/// `Ulid::new`: an identifier made of the present time and random bits.
#[verifier::external_body]
fn fresh_ulid() -> (r: u128) {
    ulid::Ulid::new().0
}

/// `Ulid::to_string`: 26 uppercase Crockford digits, most significant first.
#[verifier::external_body]
fn format_ulid(v: u128) -> (r: String)
    ensures
        r@ == ulid_text(v),
{
    ulid::Ulid(v).to_string()
}

/// `Ulid::from_string`: accepts exactly 26 Crockford digits of either case and
/// drops bits above the 128th.
#[verifier::external_body]
fn read_ulid(s: &str) -> (r: Option<u128>)
    ensures
        r == ulid_parse(s@),
{
    ulid::Ulid::from_string(s).ok().map(|u| u.0)
}

/// `Ulid::to_bytes`: the identifier in big-endian byte order.
#[verifier::external_body]
fn bytes_of_ulid(v: u128) -> (r: [u8; 16])
    ensures
        r@ == ulid_bytes(v),
{
    ulid::Ulid(v).to_bytes()
}

/// A community.
#[derive(Clone, Copy, Debug, PartialEq, Eq, Hash, Structural)]
pub struct CommunityId(pub u128);

/// A channel.
#[derive(Clone, Copy, Debug, PartialEq, Eq, Hash, Structural)]
pub struct ChannelId(pub u128);

/// A message.
#[derive(Clone, Copy, Debug, PartialEq, Eq, Hash, Structural)]
pub struct MessageId(pub u128);

impl DeepView for CommunityId {
    type V = CommunityId;

    open spec fn deep_view(&self) -> CommunityId {
        *self
    }
}

impl DeepView for ChannelId {
    type V = ChannelId;

    open spec fn deep_view(&self) -> ChannelId {
        *self
    }
}

impl DeepView for MessageId {
    type V = MessageId;

    open spec fn deep_view(&self) -> MessageId {
        *self
    }
}

impl CommunityId {
    /// The text form.
    pub open spec fn name(&self) -> Seq<char> {
        ulid_text(self.0)
    }

    /// A fresh identifier.
    pub fn new() -> (r: CommunityId) {
        CommunityId(fresh_ulid())
    }

    /// The 26-character text form.
    pub fn to_string(&self) -> (r: String)
        ensures
            r@ == self.name(),
    {
        format_ulid(self.0)
    }

    /// Read the text form.
    pub fn from_string(s: &str) -> (r: Option<CommunityId>)
        ensures
            match r {
                Some(id) => ulid_parse(s@) == Some(id.0),
                None => ulid_parse(s@) is None,
            },
    {
        match read_ulid(s) {
            Some(v) => Some(CommunityId(v)),
            None => None,
        }
    }

    /// The sixteen bytes, most significant first.
    pub fn to_bytes(&self) -> (r: [u8; 16])
        ensures
            r@ == ulid_bytes(self.0),
    {
        bytes_of_ulid(self.0)
    }
}

impl ChannelId {
    /// The text form.
    pub open spec fn name(&self) -> Seq<char> {
        ulid_text(self.0)
    }

    /// A fresh identifier.
    pub fn new() -> (r: ChannelId) {
        ChannelId(fresh_ulid())
    }

    /// The 26-character text form.
    pub fn to_string(&self) -> (r: String)
        ensures
            r@ == self.name(),
    {
        format_ulid(self.0)
    }

    /// Read the text form.
    pub fn from_string(s: &str) -> (r: Option<ChannelId>)
        ensures
            match r {
                Some(id) => ulid_parse(s@) == Some(id.0),
                None => ulid_parse(s@) is None,
            },
    {
        match read_ulid(s) {
            Some(v) => Some(ChannelId(v)),
            None => None,
        }
    }

    /// The sixteen bytes, most significant first.
    pub fn to_bytes(&self) -> (r: [u8; 16])
        ensures
            r@ == ulid_bytes(self.0),
    {
        bytes_of_ulid(self.0)
    }
}

impl MessageId {
    /// The text form.
    pub open spec fn name(&self) -> Seq<char> {
        ulid_text(self.0)
    }

    /// A fresh identifier.
    pub fn new() -> (r: MessageId) {
        MessageId(fresh_ulid())
    }

    /// The 26-character text form.
    pub fn to_string(&self) -> (r: String)
        ensures
            r@ == self.name(),
    {
        format_ulid(self.0)
    }

    /// Read the text form.
    pub fn from_string(s: &str) -> (r: Option<MessageId>)
        ensures
            match r {
                Some(id) => ulid_parse(s@) == Some(id.0),
                None => ulid_parse(s@) is None,
            },
    {
        match read_ulid(s) {
            Some(v) => Some(MessageId(v)),
            None => None,
        }
    }

    /// The sixteen bytes, most significant first.
    pub fn to_bytes(&self) -> (r: [u8; 16])
        ensures
            r@ == ulid_bytes(self.0),
    {
        bytes_of_ulid(self.0)
    }
}

/// A 32-byte user identifier: SHA-256 of the user's Ed25519 verifying key.
#[derive(Clone, Copy, Debug, PartialEq, Eq, Hash)]
pub struct UserId(pub [u8; 32]);

impl DeepView for UserId {
    type V = UserId;

    open spec fn deep_view(&self) -> UserId {
        *self
    }
}

/// Whether a text is the text form of a user identifier: 64 lowercase
/// hexadecimal digits.
pub open spec fn is_user_name(s: Seq<char>) -> bool {
    s.len() == 64 && all_lower_hex(s)
}

impl UserId {
    /// The text form: 64 lowercase hexadecimal digits.
    pub open spec fn name(&self) -> Seq<char> {
        hex(self.0@)
    }

    /// Derive a `UserId` from an Ed25519 verifying key.
    pub fn from_verifying_key(key: &[u8; 32]) -> (r: UserId)
        ensures
            r.0@ == sha256_digest(key@),
    {
        UserId(sha256(key.as_slice()))
    }

    /// The text form.
    pub fn to_string(&self) -> (r: String)
        ensures
            r@ == self.name(),
    {
        bytes_to_hex(self.0.as_slice())
    }

    /// Read the text form: exactly 64 lowercase hexadecimal digits, so that
    /// each identifier has one text form.
    pub fn from_string(s: &str) -> (r: Option<UserId>)
        ensures
            r is Some <==> is_user_name(s@),
            r matches Some(u) ==> u.0@ == unhex(s@) && u.name() == s@,
    {
        proof {
            if is_user_name(s@) {
                lowercase_hex_is_canonical(s@);
            }
        }
        let b = match parse_hex::<32>(s) {
            Some(b) => b,
            None => {
                return None;
            },
        };
        let canonical = bytes_to_hex(b.as_slice());
        proof {
            hex_is_lowercase(b@);
        }
        if same_text(canonical.as_str(), s) {
            Some(UserId(b))
        } else {
            None
        }
    }

    /// Whether two identifiers are the same.
    pub fn same(&self, other: &UserId) -> (r: bool)
        ensures
            r == (*self == *other),
    {
        crate::bytes::same_array(&self.0, &other.0)
    }
}

/// Reading the text form of a user identifier gives the identifier back.
pub proof fn user_id_round_trip(u: UserId)
    ensures
        is_user_name(u.name()),
        unhex(u.name()) == u.0@,
{
    hex_round_trip(u.0@);
    hex_is_lowercase(u.0@);
}

/// Two different texts never stand for the same user.
pub proof fn user_names_are_unique(a: Seq<char>, b: Seq<char>)
    requires
        is_user_name(a),
        is_user_name(b),
        unhex(a) == unhex(b),
    ensures
        a == b,
{
    lowercase_hex_is_canonical(a);
    lowercase_hex_is_canonical(b);
}

/// Two users with the same bytes are the same user.
pub proof fn same_user(a: UserId, b: UserId)
    requires
        a.0@ == b.0@,
    ensures
        a == b,
{
    assert forall|i: int| 0 <= i < 32 implies a.0[i] == b.0[i] by {
        assert(a.0@[i] == b.0@[i]);
    }
    assert(a.0 =~= b.0);
}

/// Two users with the same text form are the same user.
pub proof fn user_name_injective(a: UserId, b: UserId)
    ensures
        a.name() == b.name() <==> a == b,
{
    user_id_round_trip(a);
    user_id_round_trip(b);
    if a.name() == b.name() {
        same_user(a, b);
    }
}

} // verus!
