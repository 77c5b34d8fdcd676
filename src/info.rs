//! Identifiers, actors, timestamps and the metadata carried by every event.

use vstd::prelude::*;
use crate::event::EventType;

verus! {

/// The lowercase hexadecimal digits, indexed by value.
pub open spec fn hex_digit(d: int) -> char {
    seq!['0', '1', '2', '3', '4', '5', '6', '7', '8', '9', 'a', 'b', 'c', 'd', 'e', 'f'][d]
}

/// The lowest `n` hexadecimal digits of `v`, most significant first.
pub open spec fn hex_digits(v: int, n: nat) -> Seq<char>
    decreases n,
{
    if n == 0 {
        Seq::empty()
    } else {
        hex_digits(v / 16, (n - 1) as nat).push(hex_digit(v % 16))
    }
}

/// Canonical text of an identifier: 32 lowercase hex digits of the
/// big-endian value, grouped 8-4-4-4-12 and joined by hyphens.
pub open spec fn id_text(v: u128) -> Seq<char> {
    let h = hex_digits(v as int, 32);
    h.subrange(0, 8) + seq!['-'] + h.subrange(8, 12) + seq!['-'] + h.subrange(12, 16) + seq!['-']
        + h.subrange(16, 20) + seq!['-'] + h.subrange(20, 32)
}

/// A hexadecimal digit, in either case.
pub open spec fn is_hex(c: char) -> bool {
    ('0' <= c && c <= '9') || ('a' <= c && c <= 'f') || ('A' <= c && c <= 'F')
}

/// The value of a hexadecimal digit.
pub open spec fn hex_value(c: char) -> int {
    if '0' <= c && c <= '9' {
        c as int - '0' as int
    } else if 'a' <= c && c <= 'f' {
        c as int - 'a' as int + 10
    } else {
        c as int - 'A' as int + 10
    }
}

/// The value of a sequence of hexadecimal digits, most significant first.
pub open spec fn digits_value(t: Seq<char>) -> int
    decreases t.len(),
{
    if t.len() == 0 {
        0
    } else {
        digits_value(t.drop_last()) * 16 + hex_value(t.last())
    }
}

/// 32 hexadecimal digits.
pub open spec fn simple_form(t: Seq<char>) -> bool {
    t.len() == 32 && forall|i: int| 0 <= i < 32 ==> is_hex(#[trigger] t[i])
}

/// 32 hexadecimal digits grouped 8-4-4-4-12, hyphens between the groups.
pub open spec fn hyphenated_form(t: Seq<char>) -> bool {
    t.len() == 36 && forall|i: int|
        0 <= i < 36 ==> if i == 8 || i == 13 || i == 18 || i == 23 {
            #[trigger] t[i] == '-'
        } else {
            is_hex(t[i])
        }
}

/// The prefix of the URN form.
pub open spec fn urn_prefix() -> Seq<char> {
    seq!['u', 'r', 'n', ':', 'u', 'u', 'i', 'd', ':']
}

/// The texts read as a UUID: simple, hyphenated, or hyphenated behind the URN
/// prefix; digits in either case.
pub open spec fn uuid_form(t: Seq<char>) -> bool {
    ||| simple_form(t)
    ||| hyphenated_form(t)
    ||| t.len() == 45 && t.subrange(0, 9) == urn_prefix() && hyphenated_form(t.subrange(9, 45))
}

/// The digits of a hyphenated text, without its hyphens.
pub open spec fn hyphenated_digits(t: Seq<char>) -> Seq<char> {
    t.subrange(0, 8) + t.subrange(9, 13) + t.subrange(14, 18) + t.subrange(19, 23) + t.subrange(
        24,
        36,
    )
}

/// The value that a text of `uuid_form` holds: its digits, read in order.
pub open spec fn uuid_value(t: Seq<char>) -> int {
    if t.len() == 32 {
        digits_value(t)
    } else if t.len() == 36 {
        digits_value(hyphenated_digits(t))
    } else {
        digits_value(hyphenated_digits(t.subrange(9, 45)))
    }
}

/// `r` is what reading `t` gives: its value where `t` has a form of a UUID, a
/// failure where it has none.
pub open spec fn reads_uuid(t: Seq<char>, r: Result<u128, uuid::Error>) -> bool {
    &&& r is Ok <==> uuid_form(t)
    &&& r is Ok ==> r->Ok_0 == uuid_value(t)
}

/// Powers of sixteen.
pub open spec fn pow16(n: nat) -> int
    decreases n,
{
    if n == 0 {
        1
    } else {
        16 * pow16((n - 1) as nat)
    }
}

proof fn lemma_hex_digit(d: int)
    requires
        0 <= d < 16,
    ensures
        is_hex(hex_digit(d)),
        hex_value(hex_digit(d)) == d,
        hex_digit(d) != '-',
{
    let s = seq!['0', '1', '2', '3', '4', '5', '6', '7', '8', '9', 'a', 'b', 'c', 'd', 'e', 'f'];
    assert(s[0] == '0' && s[1] == '1' && s[2] == '2' && s[3] == '3' && s[4] == '4');
    assert(s[5] == '5' && s[6] == '6' && s[7] == '7' && s[8] == '8' && s[9] == '9');
    assert(s[10] == 'a' && s[11] == 'b' && s[12] == 'c' && s[13] == 'd' && s[14] == 'e');
    assert(s[15] == 'f');
}

proof fn lemma_hex_digits(v: int, n: nat)
    requires
        v >= 0,
    ensures
        hex_digits(v, n).len() == n,
        forall|i: int| 0 <= i < n ==> is_hex(#[trigger] hex_digits(v, n)[i]) && hex_digits(v, n)[i] != '-',
        digits_value(hex_digits(v, n)) == v % pow16(n),
    decreases n,
{
    if n > 0 {
        let m = (n - 1) as nat;
        lemma_hex_digits(v / 16, m);
        lemma_hex_digit(v % 16);
        let h = hex_digits(v, n);
        assert(h.drop_last() =~= hex_digits(v / 16, m));
        assert(pow16(m) > 0) by {
            lemma_pow16_positive(m);
        }
        vstd::arithmetic::div_mod::lemma_mod_breakdown(v, 16, pow16(m));
    } else {
        assert(v % 1 == 0);
    }
}

proof fn lemma_pow16_positive(n: nat)
    ensures
        pow16(n) > 0,
    decreases n,
{
    if n > 0 {
        lemma_pow16_positive((n - 1) as nat);
    }
}

/// The canonical text of a value is hyphenated, and holds that value.
pub proof fn lemma_id_text_reads_back(v: u128)
    ensures
        hyphenated_form(id_text(v)),
        uuid_form(id_text(v)),
        uuid_value(id_text(v)) == v,
{
    let h = hex_digits(v as int, 32);
    lemma_hex_digits(v as int, 32);
    let t = id_text(v);
    assert(hyphenated_digits(t) =~= h);
    assert forall|i: int| 0 <= i < 36 implies if i == 8 || i == 13 || i == 18 || i == 23 {
        #[trigger] t[i] == '-'
    } else {
        is_hex(t[i])
    } by {
        if i < 8 {
            assert(t[i] == h[i]);
        } else if 8 < i < 13 {
            assert(t[i] == h[i - 1]);
        } else if 13 < i < 18 {
            assert(t[i] == h[i - 2]);
        } else if 18 < i < 23 {
            assert(t[i] == h[i - 3]);
        } else if 23 < i {
            assert(t[i] == h[i - 4]);
        }
    }
    assert(pow16(32) == 0x1_0000_0000_0000_0000_0000_0000_0000_0000) by {
        reveal_with_fuel(pow16, 33);
    }
}

/// `r` is what reading the text `t` as an identifier gives: the identifier of
/// its value where `t` has a form of a UUID, a failure where it has none.
pub open spec fn parsed_from(t: Seq<char>, r: Result<Id, ParseError>) -> bool {
    &&& r is Ok <==> uuid_form(t)
    &&& r is Ok ==> r->Ok_0@ == uuid_value(t)
}

/// A random identifier's value: version 4 in bits 76 to 79, and the RFC 4122
/// variant (`10`) in bits 62 and 63; the other 122 bits are drawn at random.
pub open spec fn is_random_id(v: u128) -> bool {
    &&& (v >> 76u128) & 0xfu128 == 4
    &&& (v >> 62u128) & 0x3u128 == 2
}

/// Relies on `uuid::Uuid::new_v4`: random bytes from the system, with the
/// version set to 4 and the variant to RFC 4122 (`Builder::set_version`,
/// `Builder::set_variant`), read big-endian by `as_u128`.
#[verifier::external_body]
fn uuid_random() -> (r: u128)
    ensures
        is_random_id(r),
{
    uuid::Uuid::new_v4().as_u128()
}

/// Relies on uuid's `Display` for `Uuid` (its `LowerHex` of the hyphenated
/// form) on the value built by `Uuid::from_u128`, which keeps the big-endian
/// byte order.
#[verifier::external_body]
fn uuid_text(v: u128) -> (r: String)
    ensures
        r@ == id_text(v),
{
    uuid::Uuid::from_u128(v).to_string()
}

/// Relies on `uuid::Uuid::parse_str`: it accepts exactly the simple, hyphenated
/// and URN forms, with digits in either case, fills the bytes from the digits
/// in order (read big-endian by `as_u128`), and so reads back the hyphenated
/// form that `Display` writes.
#[verifier::external_body]
fn uuid_parse(s: &str) -> (r: Result<u128, uuid::Error>)
    ensures
        reads_uuid(s@, r),
{
    uuid::Uuid::parse_str(s).map(|u| u.as_u128())
}

#[verifier::external_type_specification]
#[verifier::external_body]
pub struct ExUuidError(uuid::Error);

/// An identifier of an aggregate: a 128-bit value, written in the canonical
/// hyphenated form.
#[derive(Debug, Clone, Copy, PartialEq, Eq, Structural, Hash)]
pub struct Id {
    value: u128,
}

/// Why a text is not an identifier; holds the parser's own report.
#[derive(Debug)]
pub struct ParseError {
    pub cause: uuid::Error,
}

impl View for Id {
    type V = u128;

    closed spec fn view(&self) -> u128 {
        self.value
    }
}

impl Id {
    /// A fresh random identifier, of version 4 and the RFC 4122 variant.
    pub fn random() -> (r: Id)
        ensures
            is_random_id(r@),
    {
        Id { value: uuid_random() }
    }

    /// The identifier with this value.
    pub fn from_u128(value: u128) -> (r: Id)
        ensures
            r@ == value,
    {
        Id { value }
    }

    /// The value of the identifier.
    pub fn as_u128(&self) -> (r: u128)
        ensures
            r == self@,
    {
        self.value
    }

    /// The canonical lowercase hyphenated text of the identifier.
    pub fn to_string(&self) -> (r: String)
        ensures
            r@ == id_text(self@),
    {
        uuid_text(self.value)
    }

    /// Reads an identifier; the canonical text of every identifier is read back
    /// to that identifier.
    pub fn parse(s: &str) -> (r: Result<Id, ParseError>)
        ensures
            parsed_from(s@, r),
    {
        match uuid_parse(s) {
            Ok(value) => Ok(Id { value }),
            Err(cause) => Err(ParseError { cause }),
        }
    }

    /// Reading the canonical text of an identifier gives that identifier
    /// back: whatever `parse` (or `from_str`) returns on the text that
    /// `to_string` writes for `id` is `Ok(id)`.
    pub proof fn lemma_parse_round_trip(id: Id, r: Result<Id, ParseError>)
        requires
            parsed_from(id_text(id@), r),
        ensures
            r matches Ok(x) && x == id,
    {
        lemma_id_text_reads_back(id@);
    }
}

impl std::str::FromStr for Id {
    type Err = ParseError;

    /// Reads an identifier, as `Id::parse` does.
    fn from_str(s: &str) -> (r: Result<Id, ParseError>)
        ensures
            parsed_from(s@, r),
    {
        Id::parse(s)
    }
}

/// A role of the system itself.
#[derive(Debug, Clone, Copy, PartialEq, Eq, Structural, Hash)]
pub enum SystemUser {
    Root,
    Guest,
}

/// Who caused an event: the system in one of its roles, or an end user.
#[derive(Debug, Clone, Copy, PartialEq, Eq, Structural, Hash)]
pub enum UserType {
    System(SystemUser),
    User(Id),
}

impl UserType {
    pub fn guest() -> (r: UserType)
        ensures
            r == UserType::System(SystemUser::Guest),
    {
        UserType::System(SystemUser::Guest)
    }

    pub fn root() -> (r: UserType)
        ensures
            r == UserType::System(SystemUser::Root),
    {
        UserType::System(SystemUser::Root)
    }

    pub fn user(id: Id) -> (r: UserType)
        ensures
            r == UserType::User(id),
    {
        UserType::User(id)
    }
}

/// A point in time: whole seconds since the Unix epoch, and the nanoseconds
/// past them.
#[derive(Debug, Clone, Copy, PartialEq, Eq, Structural, Hash)]
pub struct Date {
    pub secs: i64,
    pub nanos: u32,
}

/// Relies on chrono's `From<SystemTime> for DateTime<Utc>` on
/// `std::time::SystemTime::now()`: a time before the epoch becomes negative
/// seconds, and the nanoseconds stay under one second.
#[verifier::external_body]
fn clock_now() -> (r: Date)
    ensures
        r.nanos < 1_000_000_000,
{
    let t = chrono::DateTime::<chrono::Utc>::from(std::time::SystemTime::now());
    Date { secs: t.timestamp(), nanos: t.timestamp_subsec_nanos() }
}

impl Date {
    /// The current time.
    pub fn now() -> (r: Date)
        ensures
            r.nanos < 1_000_000_000,
    {
        clock_now()
    }
}

/// The metadata of one event: which aggregate it belongs to, its stream, when
/// and by whom it was caused, and its place in the aggregate's history.
#[derive(Debug, PartialEq, Eq)]
pub struct Info {
    pub id: Id,
    pub stream: String,
    pub date: Date,
    pub user: UserType,
    pub version: i64,
}

impl Clone for Info {
    fn clone(&self) -> (r: Info)
        ensures
            r == *self,
    {
        Info {
            id: self.id,
            stream: self.stream.clone(),
            date: self.date,
            user: self.user,
            version: self.version,
        }
    }
}

impl Info {
    /// Metadata of the first event of a new aggregate: a fresh identifier, the
    /// stream of the event type, the current time and version 1.
    pub fn new<E: EventType>(user: UserType) -> (r: Info)
        ensures
            is_random_id(r.id@),
            r.stream@ == E::stream_name(),
            r.date.nanos < 1_000_000_000,
            r.user == user,
            r.version == 1,
    {
        Info {
            id: Id::random(),
            stream: E::stream_type().to_owned(),
            date: Date::now(),
            user,
            version: 1,
        }
    }

    /// The same metadata with another timestamp.
    pub fn date(self, date: Date) -> (r: Info)
        ensures
            r == (Info { date, ..self }),
    {
        Info { date, ..self }
    }

    /// Metadata of the event that follows this one in the same aggregate: same
    /// identifier and stream, the given actor, the current time, and the next
    /// version.
    pub fn increase(self, user: UserType) -> (r: Info)
        requires
            self.version < i64::MAX,
        ensures
            r.id == self.id,
            r.stream == self.stream,
            r.date.nanos < 1_000_000_000,
            r.user == user,
            r.version == self.version + 1,
    {
        Info { user, date: Date::now(), version: self.version + 1, ..self }
    }
}

} // verus!
