//! Identifiers and tracing data: notification ids backed by random 128-bit
//! values, correlation and session ids, trace spans, and the HTTP header form
//! of a trace context.

use vstd::prelude::*;

use crate::text::{chars_of, str_eq, string_from_chars};
use crate::time_wrapper::DefaultableInstant;

verus! {

// ---------------------------------------------------------------------------
// Outside sources of identifiers
// ---------------------------------------------------------------------------

/// Relies on `uuid::Uuid::new_v4`: a freshly generated random (version 4)
/// identifier, returned as its 128-bit value.  Nothing is promised of the
/// value.
#[verifier::external_body]
fn uuid_v4_u128() -> (r: u128)
{
    uuid::Uuid::new_v4().as_u128()
}

/// The hyphenated text of the identifier with value `v`.
pub uninterp spec fn uuid_text_of(v: u128) -> Seq<char>;

/// Relies on `uuid::Uuid::from_u128` and the `Display` of `uuid::Uuid`: the
/// hyphenated lower-case form, 36 characters long.
#[verifier::external_body]
fn uuid_to_hyphenated(v: u128) -> (r: String)
    ensures
        r@ == uuid_text_of(v),
        r@.len() == 36,
{
    uuid::Uuid::from_u128(v).to_string()
}

/// Relies on `uuid::Uuid::parse_str`: parsing accepts the hyphenated form
/// that `uuid::Uuid` displays and returns the identifier it displays as.
#[verifier::external_body]
fn uuid_parse(s: &str) -> (r: Option<u128>)
    ensures
        forall|v: u128| s@ == uuid_text_of(v) ==> r == Some(v),
{
    match uuid::Uuid::parse_str(s) {
        Ok(u) => Some(u.as_u128()),
        Err(_) => None,
    }
}

/// Relies on `rand::random`: a uniformly random 64-bit value.  Nothing is
/// promised of the value.
#[verifier::external_body]
pub fn random_u64() -> (r: u64)
{
    rand::random::<u64>()
}

// ---------------------------------------------------------------------------
// Identifier types
// ---------------------------------------------------------------------------

/// Globally unique notification identifier: an opaque 128-bit value.
#[derive(Debug, Clone, Copy, PartialEq, Eq, Hash, Structural)]
pub struct NotificationId {
    pub value: u128,
}

impl NotificationId {
    /// A freshly generated identifier.
    pub fn generate() -> NotificationId {
        NotificationId { value: uuid_v4_u128() }
    }

    /// Wrap a 128-bit value as an identifier.
    pub fn from_uuid(value: u128) -> (r: NotificationId)
        ensures
            r.value == value,
    {
        NotificationId { value }
    }

    /// The wrapped 128-bit value.
    pub fn as_uuid(&self) -> (r: u128)
        ensures
            r == self.value,
    {
        self.value
    }

    /// The hyphenated text of the identifier.
    pub fn to_text(&self) -> (r: String)
        ensures
            r@ == uuid_text_of(self.value),
            r@.len() == 36,
    {
        uuid_to_hyphenated(self.value)
    }

    /// Parse the hyphenated text form back into an identifier.
    pub fn parse(s: &str) -> (r: Option<NotificationId>)
        ensures
            forall|v: u128| s@ == uuid_text_of(v) ==> r == Some(NotificationId { value: v }),
    {
        match uuid_parse(s) {
            Some(v) => Some(NotificationId { value: v }),
            None => None,
        }
    }
}

/// Correlation identifier for tracing a request across services.
#[derive(Debug, Clone, PartialEq, Eq, Hash)]
pub struct CorrelationId {
    pub text: String,
}

impl CorrelationId {
    /// A freshly generated identifier.
    pub fn generate() -> CorrelationId {
        CorrelationId { text: uuid_to_hyphenated(uuid_v4_u128()) }
    }

    /// Wrap an arbitrary string.
    pub fn from_string(s: String) -> (r: CorrelationId)
        ensures
            r.text == s,
    {
        CorrelationId { text: s }
    }

    /// The identifier's text.
    pub fn as_str(&self) -> (r: &str)
        ensures
            r@ == self.text@,
    {
        self.text.as_str()
    }

    /// An equal copy of the identifier.
    pub fn duplicate(&self) -> (r: CorrelationId)
        ensures
            r == *self,
    {
        CorrelationId { text: self.text.clone() }
    }
}

/// User session identifier.
#[derive(Debug, Clone, PartialEq, Eq, Hash)]
pub struct SessionId {
    pub text: String,
}

impl SessionId {
    /// Wrap an arbitrary string.
    pub fn new(s: String) -> (r: SessionId)
        ensures
            r.text == s,
    {
        SessionId { text: s }
    }

    /// A freshly generated identifier.
    pub fn generate() -> SessionId {
        SessionId { text: uuid_to_hyphenated(uuid_v4_u128()) }
    }

    /// The identifier's text.
    pub fn as_str(&self) -> (r: &str)
        ensures
            r@ == self.text@,
    {
        self.text.as_str()
    }
}

/// Tracing span identifier.
#[derive(Debug, Clone, Copy, PartialEq, Eq, Hash, Structural)]
pub struct SpanId {
    pub value: u64,
}

impl SpanId {
    /// A freshly generated random identifier.
    pub fn generate() -> SpanId {
        SpanId { value: random_u64() }
    }

    /// Wrap a 64-bit value.
    pub fn from_u64(value: u64) -> (r: SpanId)
        ensures
            r.value == value,
    {
        SpanId { value }
    }

    /// The wrapped value.
    pub fn as_u64(&self) -> (r: u64)
        ensures
            r == self.value,
    {
        self.value
    }
}

/// Tracing trace identifier.
#[derive(Debug, Clone, Copy, PartialEq, Eq, Hash, Structural)]
pub struct TraceId {
    pub value: u128,
}

impl TraceId {
    /// A freshly generated random identifier, from two 64-bit draws.
    pub fn generate() -> TraceId {
        let hi: u64 = random_u64();
        let lo: u64 = random_u64();
        TraceId { value: ((hi as u128) << 64) | (lo as u128) }
    }

    /// Wrap a 128-bit value.
    pub fn from_u128(value: u128) -> (r: TraceId)
        ensures
            r.value == value,
    {
        TraceId { value }
    }

    /// The wrapped value.
    pub fn as_u128(&self) -> (r: u128)
        ensures
            r == self.value,
    {
        self.value
    }
}

// ---------------------------------------------------------------------------
// Hexadecimal text
// ---------------------------------------------------------------------------

/// The lower-case hex digit for `d`, when `0 <= d < 16`.
pub open spec fn hex_digit(d: int) -> char {
    if d == 0 {
        '0'
    } else if d == 1 {
        '1'
    } else if d == 2 {
        '2'
    } else if d == 3 {
        '3'
    } else if d == 4 {
        '4'
    } else if d == 5 {
        '5'
    } else if d == 6 {
        '6'
    } else if d == 7 {
        '7'
    } else if d == 8 {
        '8'
    } else if d == 9 {
        '9'
    } else if d == 10 {
        'a'
    } else if d == 11 {
        'b'
    } else if d == 12 {
        'c'
    } else if d == 13 {
        'd'
    } else if d == 14 {
        'e'
    } else {
        'f'
    }
}

/// Lower-case hexadecimal text of `v`, without leading zeros.
pub open spec fn hex_of(v: nat) -> Seq<char>
    decreases v,
{
    if v < 16 {
        seq![hex_digit(v as int)]
    } else {
        hex_of(v / 16) + seq![hex_digit((v % 16) as int)]
    }
}

fn hex_digit_exec(d: u8) -> (r: char)
    requires
        d < 16,
    ensures
        r == hex_digit(d as int),
{
    if d == 0 {
        '0'
    } else if d == 1 {
        '1'
    } else if d == 2 {
        '2'
    } else if d == 3 {
        '3'
    } else if d == 4 {
        '4'
    } else if d == 5 {
        '5'
    } else if d == 6 {
        '6'
    } else if d == 7 {
        '7'
    } else if d == 8 {
        '8'
    } else if d == 9 {
        '9'
    } else if d == 10 {
        'a'
    } else if d == 11 {
        'b'
    } else if d == 12 {
        'c'
    } else if d == 13 {
        'd'
    } else if d == 14 {
        'e'
    } else {
        'f'
    }
}

fn push_hex(v: u128, out: &mut Vec<char>)
    ensures
        final(out)@ == old(out)@ + hex_of(v as nat),
    decreases v,
{
    if v < 16 {
        out.push(hex_digit_exec(v as u8));
        proof {
            assert(final(out)@ =~= old(out)@ + hex_of(v as nat));
        }
    } else {
        push_hex(v / 16, out);
        out.push(hex_digit_exec((v % 16) as u8));
        proof {
            assert(final(out)@ =~= old(out)@ + hex_of(v as nat));
        }
    }
}

/// Lower-case hexadecimal text of a 128-bit value.
pub fn to_hex_u128(v: u128) -> (r: String)
    ensures
        r@ == hex_of(v as nat),
{
    let mut out: Vec<char> = Vec::new();
    push_hex(v, &mut out);
    string_from_chars(&out)
}

/// Lower-case hexadecimal text of a 64-bit value.
pub fn to_hex_u64(v: u64) -> (r: String)
    ensures
        r@ == hex_of(v as nat),
{
    to_hex_u128(v as u128)
}

/// The numeric value of a hex digit character, if it is one.
pub open spec fn hex_val(c: char) -> Option<int> {
    if c == '0' {
        Some(0int)
    } else if c == '1' {
        Some(1int)
    } else if c == '2' {
        Some(2int)
    } else if c == '3' {
        Some(3int)
    } else if c == '4' {
        Some(4int)
    } else if c == '5' {
        Some(5int)
    } else if c == '6' {
        Some(6int)
    } else if c == '7' {
        Some(7int)
    } else if c == '8' {
        Some(8int)
    } else if c == '9' {
        Some(9int)
    } else if c == 'a' || c == 'A' {
        Some(10int)
    } else if c == 'b' || c == 'B' {
        Some(11int)
    } else if c == 'c' || c == 'C' {
        Some(12int)
    } else if c == 'd' || c == 'D' {
        Some(13int)
    } else if c == 'e' || c == 'E' {
        Some(14int)
    } else if c == 'f' || c == 'F' {
        Some(15int)
    } else {
        None
    }
}

fn hex_val_exec(c: char) -> (r: Option<u8>)
    ensures
        match r {
            Some(d) => hex_val(c) == Some(d as int),
            None => hex_val(c) is None,
        },
{
    if c == '0' {
        Some(0u8)
    } else if c == '1' {
        Some(1u8)
    } else if c == '2' {
        Some(2u8)
    } else if c == '3' {
        Some(3u8)
    } else if c == '4' {
        Some(4u8)
    } else if c == '5' {
        Some(5u8)
    } else if c == '6' {
        Some(6u8)
    } else if c == '7' {
        Some(7u8)
    } else if c == '8' {
        Some(8u8)
    } else if c == '9' {
        Some(9u8)
    } else if c == 'a' || c == 'A' {
        Some(10u8)
    } else if c == 'b' || c == 'B' {
        Some(11u8)
    } else if c == 'c' || c == 'C' {
        Some(12u8)
    } else if c == 'd' || c == 'D' {
        Some(13u8)
    } else if c == 'e' || c == 'E' {
        Some(14u8)
    } else if c == 'f' || c == 'F' {
        Some(15u8)
    } else {
        None
    }
}

/// Is `s` a non-empty string of hex digits?
pub open spec fn is_hex_text(s: Seq<char>) -> bool {
    s.len() > 0 && (forall|k: int| 0 <= k < s.len() ==> hex_val(s[k]) is Some)
}

/// The number written in hex by `s` (digits read left to right).
pub open spec fn hex_num(s: Seq<char>) -> int
    decreases s.len(),
{
    if s.len() == 0 {
        0
    } else {
        hex_num(s.drop_last()) * 16 + hex_val(s.last()).unwrap_or(0)
    }
}

/// Parse a hexadecimal string into a 128-bit value.
pub fn from_hex_u128(s: &str) -> (r: Option<u128>)
    ensures
        match r {
            Some(v) => is_hex_text(s@) && v as int == hex_num(s@),
            None => !is_hex_text(s@) || hex_num(s@) > u128::MAX,
        },
{
    let cs: Vec<char> = chars_of(s);
    let n: usize = cs.len();
    if n == 0 {
        return None;
    }
    let mut acc: u128 = 0;
    let mut i: usize = 0;
    proof {
        assert(s@.subrange(0, 0) =~= Seq::<char>::empty());
    }
    while i < n
        invariant
            n == s@.len(),
            cs@ == s@,
            i <= n,
            acc as int == hex_num(s@.subrange(0, i as int)),
            forall|k: int| 0 <= k < i ==> hex_val(s@[k]) is Some,
        decreases n - i,
    {
        let d: u8 = match hex_val_exec(cs[i]) {
            Some(d) => d,
            None => {
                return None;
            },
        };
        let shifted: u128 = match acc.checked_mul(16) {
            Some(x) => x,
            None => {
                proof {
                    lemma_hex_num_nonneg(s@.subrange(0, i as int));
                    lemma_hex_num_prefix_overflow(s@, i as int);
                }
                return None;
            },
        };
        let next: u128 = match shifted.checked_add(d as u128) {
            Some(x) => x,
            None => {
                proof {
                    lemma_hex_num_nonneg(s@.subrange(0, i as int));
                    lemma_hex_num_prefix_overflow(s@, i as int);
                }
                return None;
            },
        };
        proof {
            assert(s@.subrange(0, i as int + 1).drop_last() =~= s@.subrange(0, i as int));
            assert(s@.subrange(0, i as int + 1).last() == s@[i as int]);
        }
        acc = next;
        i = i + 1;
    }
    proof {
        assert(s@.subrange(0, n as int) =~= s@);
    }
    Some(acc)
}

/// A hex number is never negative.
proof fn lemma_hex_num_nonneg(s: Seq<char>)
    ensures
        hex_num(s) >= 0,
    decreases s.len(),
{
    if s.len() > 0 {
        lemma_hex_num_nonneg(s.drop_last());
    }
}

/// If the value of a proper prefix already exceeds what the next digit can
/// extend within bounds, the whole string's value exceeds the bound too.
proof fn lemma_hex_num_prefix_overflow(s: Seq<char>, i: int)
    requires
        0 <= i < s.len(),
        hex_num(s.subrange(0, i)) * 16 + hex_val(s[i]).unwrap_or(0) > u128::MAX,
        forall|k: int| 0 <= k <= i ==> hex_val(s[k]) is Some,
    ensures
        hex_num(s) > u128::MAX || !is_hex_text(s),
    decreases s.len() - i,
{
    if is_hex_text(s) {
        lemma_hex_num_grows(s, i + 1);
        assert(s.subrange(0, i + 1).drop_last() =~= s.subrange(0, i));
        assert(s.subrange(0, i + 1).last() == s[i]);
    }
}

/// With all digits valid, the value of a prefix never exceeds the value of
/// the whole string.
proof fn lemma_hex_num_grows(s: Seq<char>, i: int)
    requires
        0 <= i <= s.len(),
        forall|k: int| 0 <= k < s.len() ==> hex_val(s[k]) is Some,
    ensures
        hex_num(s.subrange(0, i)) <= hex_num(s),
    decreases s.len() - i,
{
    if i == s.len() {
        assert(s.subrange(0, i) =~= s);
    } else {
        lemma_hex_num_grows(s, i + 1);
        let p = s.subrange(0, i);
        let q = s.subrange(0, i + 1);
        assert(q.drop_last() =~= p);
        assert(q.last() == s[i]);
        lemma_hex_num_nonneg(p);
        assert(hex_num(q) == hex_num(p) * 16 + hex_val(s[i]).unwrap_or(0));
        assert(hex_num(p) <= hex_num(p) * 16) by (nonlinear_arith)
            requires
                hex_num(p) >= 0,
        ;
    }
}

/// Parse a hexadecimal string into a 64-bit value.
pub fn from_hex_u64(s: &str) -> (r: Option<u64>)
    ensures
        match r {
            Some(v) => is_hex_text(s@) && v as int == hex_num(s@),
            None => !is_hex_text(s@) || hex_num(s@) > u64::MAX,
        },
{
    match from_hex_u128(s) {
        Some(v) => {
            if v <= u64::MAX as u128 {
                Some(v as u64)
            } else {
                None
            }
        },
        None => {
            proof {
                lemma_hex_num_nonneg_pub(s@);
            }
            None
        },
    }
}

proof fn lemma_hex_num_nonneg_pub(s: Seq<char>)
    ensures
        hex_num(s) >= 0,
{
    lemma_hex_num_nonneg(s);
}

// ---------------------------------------------------------------------------
// Creator context and identity
// ---------------------------------------------------------------------------

/// Context about the application that created a notification.
#[derive(Debug, Clone, PartialEq, Eq)]
pub struct CreatorContext {
    pub service_name: String,
    pub service_version: String,
    pub feature_context: Option<String>,
    pub user_context: Option<String>,
}

impl CreatorContext {
    /// A context for the named service, with this library's version.
    pub fn new(service_name: &str) -> (r: CreatorContext)
        ensures
            r.service_name@ == service_name@,
            r.feature_context is None,
            r.user_context is None,
    {
        CreatorContext {
            service_name: service_name.to_owned(),
            service_version: "0.1.0".to_owned(),
            feature_context: None,
            user_context: None,
        }
    }

    /// Record the feature that triggered the notification.
    pub fn with_feature(self, feature: &str) -> (r: CreatorContext)
        ensures
            r.feature_context matches Some(f) && f@ == feature@,
            r.service_name == self.service_name,
    {
        CreatorContext { feature_context: Some(feature.to_owned()), ..self }
    }

    /// Record the user on whose behalf the notification was created.
    pub fn with_user(self, user: &str) -> (r: CreatorContext)
        ensures
            r.user_context matches Some(u) && u@ == user@,
            r.service_name == self.service_name,
    {
        CreatorContext { user_context: Some(user.to_owned()), ..self }
    }
}

impl Default for CreatorContext {
    /// The context of an unknown service.
    fn default() -> CreatorContext {
        CreatorContext::new("unknown")
    }
}

/// A span of work for distributed tracing.
#[derive(Debug, Clone)]
pub struct TraceSpan {
    pub span_id: SpanId,
    pub trace_id: TraceId,
    pub parent_span: Option<SpanId>,
    pub operation_name: String,
    pub start_time: DefaultableInstant,
    pub attributes: Vec<(String, String)>,
}

impl TraceSpan {
    /// A new root span for the named operation, starting now.
    pub fn new(operation_name: &str) -> (r: TraceSpan)
        ensures
            r.operation_name@ == operation_name@,
            r.parent_span is None,
            r.attributes@.len() == 0,
    {
        TraceSpan {
            span_id: SpanId::generate(),
            trace_id: TraceId::generate(),
            parent_span: None,
            operation_name: operation_name.to_owned(),
            start_time: DefaultableInstant::now(),
            attributes: Vec::new(),
        }
    }

    /// The same span, parented under `parent`.
    pub fn with_parent(self, parent: SpanId) -> (r: TraceSpan)
        ensures
            r.parent_span == Some(parent),
            r.operation_name == self.operation_name,
            r.attributes == self.attributes,
    {
        TraceSpan { parent_span: Some(parent), ..self }
    }

    /// The same span with one more attribute appended.
    pub fn with_attribute(self, key: &str, value: &str) -> (r: TraceSpan)
        ensures
            r.attributes@.len() == self.attributes@.len() + 1,
            r.attributes@.last().0@ == key@,
            r.attributes@.last().1@ == value@,
            r.attributes@.subrange(0, self.attributes@.len() as int) == self.attributes@,
            r.operation_name == self.operation_name,
    {
        let ghost orig = self.attributes@;
        let mut attributes: Vec<(String, String)> = self.attributes;
        attributes.push((key.to_owned(), value.to_owned()));
        proof {
            assert(attributes@.subrange(0, attributes@.len() - 1) =~= orig);
        }
        TraceSpan { attributes, ..self }
    }

    /// The first value recorded under `key`, if any.
    pub fn attribute(&self, key: &str) -> (r: Option<&String>)
        ensures
            match r {
                Some(v) => exists|k: int|
                    0 <= k < self.attributes@.len() && self.attributes@[k].0@ == key@
                        && self.attributes@[k].1 == v,
                None => forall|k: int|
                    0 <= k < self.attributes@.len() ==> self.attributes@[k].0@ != key@,
            },
    {
        let n: usize = self.attributes.len();
        let mut i: usize = 0;
        while i < n
            invariant
                n == self.attributes@.len(),
                i <= n,
                forall|k: int| 0 <= k < i ==> self.attributes@[k].0@ != key@,
            decreases n - i,
        {
            if str_eq(self.attributes[i].0.as_str(), key) {
                return Some(&self.attributes[i].1);
            }
            i = i + 1;
        }
        None
    }

    /// Milliseconds since the span started.
    pub fn duration(&self) -> u64 {
        self.start_time.elapsed()
    }
}

/// Unique identity of one notification, with tracing context.
#[derive(Debug, Clone)]
pub struct NotificationIdentity {
    pub id: NotificationId,
    pub correlation_id: CorrelationId,
    pub session_id: SessionId,
    pub created_at: DefaultableInstant,
    pub trace_span: Option<TraceSpan>,
    pub creator_context: CreatorContext,
}

impl NotificationIdentity {
    /// A fresh identity for the given session and creator.
    pub fn new(session_id: SessionId, creator_context: CreatorContext) -> (r:
        NotificationIdentity)
        ensures
            r.session_id == session_id,
            r.creator_context == creator_context,
            r.trace_span is None,
    {
        NotificationIdentity {
            id: NotificationId::generate(),
            correlation_id: CorrelationId::generate(),
            session_id,
            created_at: DefaultableInstant::now(),
            trace_span: None,
            creator_context,
        }
    }

    /// The same identity under a caller-supplied correlation id.
    pub fn with_correlation(self, correlation_id: CorrelationId) -> (r: NotificationIdentity)
        ensures
            r.correlation_id == correlation_id,
            r.id == self.id,
    {
        NotificationIdentity { correlation_id, ..self }
    }

    /// The same identity with a trace span attached.
    pub fn with_trace_span(self, trace_span: TraceSpan) -> (r: NotificationIdentity)
        ensures
            r.trace_span is Some,
            r.id == self.id,
    {
        NotificationIdentity { trace_span: Some(trace_span), ..self }
    }
}

impl Default for NotificationIdentity {
    /// A fresh identity in a fresh session, from an unknown creator.
    fn default() -> NotificationIdentity {
        NotificationIdentity::new(SessionId::generate(), CreatorContext::default())
    }
}

// ---------------------------------------------------------------------------
// Trace context propagation
// ---------------------------------------------------------------------------

/// Trace context handed to external services as HTTP headers.
#[derive(Debug, Clone)]
pub struct TraceContext {
    pub trace_id: TraceId,
    pub span_id: SpanId,
    pub correlation_id: CorrelationId,
    pub sampling_decision: bool,
}

/// The first value under `key` in a header list.
pub open spec fn spec_header_get(headers: Seq<(String, String)>, key: Seq<char>) -> Option<
    Seq<char>,
>
    decreases headers.len(),
{
    if headers.len() == 0 {
        None
    } else if headers[0].0@ == key {
        Some(headers[0].1@)
    } else {
        spec_header_get(headers.drop_first(), key)
    }
}

/// Look a key up in a header list.
pub fn header_get<'a>(headers: &'a Vec<(String, String)>, key: &str) -> (r: Option<&'a String>)
    ensures
        match r {
            Some(v) => spec_header_get(headers@, key@) == Some(v@),
            None => spec_header_get(headers@, key@) is None,
        },
{
    let n: usize = headers.len();
    let mut i: usize = 0;
    proof {
        assert(headers@.skip(0) =~= headers@);
    }
    while i < n
        invariant
            n == headers@.len(),
            i <= n,
            spec_header_get(headers@, key@) == spec_header_get(headers@.skip(i as int), key@),
        decreases n - i,
    {
        proof {
            assert(headers@.skip(i as int)[0] == headers@[i as int]);
            assert(headers@.skip(i as int).drop_first() =~= headers@.skip(i as int + 1));
        }
        if str_eq(headers[i].0.as_str(), key) {
            return Some(&headers[i].1);
        }
        i = i + 1;
    }
    None
}

impl TraceContext {
    /// The four propagation headers: trace id and span id in lower-case hex,
    /// the correlation id verbatim, and the sampling decision as text.
    pub fn to_http_headers(&self) -> (r: Vec<(String, String)>)
        ensures
            r@.len() == 4,
            r@[0].0@ == "X-Trace-Id"@ && r@[0].1@ == hex_of(self.trace_id.value as nat),
            r@[1].0@ == "X-Span-Id"@ && r@[1].1@ == hex_of(self.span_id.value as nat),
            r@[2].0@ == "X-Correlation-Id"@ && r@[2].1@ == self.correlation_id.text@,
            r@[3].0@ == "X-Sampling-Decision"@ && r@[3].1@ == (if self.sampling_decision {
                "true"@
            } else {
                "false"@
            }),
    {
        let mut headers: Vec<(String, String)> = Vec::new();
        headers.push(("X-Trace-Id".to_owned(), to_hex_u128(self.trace_id.as_u128())));
        headers.push(("X-Span-Id".to_owned(), to_hex_u64(self.span_id.as_u64())));
        headers.push(("X-Correlation-Id".to_owned(), self.correlation_id.as_str().to_owned()));
        let decision: &str = if self.sampling_decision {
            "true"
        } else {
            "false"
        };
        headers.push(("X-Sampling-Decision".to_owned(), decision.to_owned()));
        headers
    }

    /// Rebuild a trace context from propagation headers: succeeds exactly
    /// when the trace and span headers carry hex values within their
    /// widths and a correlation header is present; a missing sampling
    /// header reads as `false`.
    pub fn from_http_headers(headers: &Vec<(String, String)>) -> (r: Option<TraceContext>)
        ensures
            r is Some <==> {
                &&& (match spec_header_get(headers@, "X-Trace-Id"@) {
                    Some(t) => is_hex_text(t) && hex_num(t) <= u128::MAX,
                    None => false,
                })
                &&& (match spec_header_get(headers@, "X-Span-Id"@) {
                    Some(t) => is_hex_text(t) && hex_num(t) <= u64::MAX,
                    None => false,
                })
                &&& spec_header_get(headers@, "X-Correlation-Id"@) is Some
            },
            r matches Some(ctx) ==> {
                &&& (match spec_header_get(headers@, "X-Trace-Id"@) {
                    Some(t) => ctx.trace_id.value as int == hex_num(t),
                    None => false,
                })
                &&& (match spec_header_get(headers@, "X-Span-Id"@) {
                    Some(t) => ctx.span_id.value as int == hex_num(t),
                    None => false,
                })
                &&& (match spec_header_get(headers@, "X-Correlation-Id"@) {
                    Some(c) => ctx.correlation_id.text@ == c,
                    None => false,
                })
                &&& ctx.sampling_decision == (match spec_header_get(
                    headers@,
                    "X-Sampling-Decision"@,
                ) {
                    Some(d) => d == "true"@,
                    None => false,
                })
            },
    {
        let trace_text: &String = match header_get(headers, "X-Trace-Id") {
            Some(v) => v,
            None => {
                return None;
            },
        };
        let trace_value: u128 = match from_hex_u128(trace_text.as_str()) {
            Some(v) => v,
            None => {
                return None;
            },
        };
        let span_text: &String = match header_get(headers, "X-Span-Id") {
            Some(v) => v,
            None => {
                return None;
            },
        };
        let span_value: u64 = match from_hex_u64(span_text.as_str()) {
            Some(v) => v,
            None => {
                return None;
            },
        };
        let correlation: &String = match header_get(headers, "X-Correlation-Id") {
            Some(v) => v,
            None => {
                return None;
            },
        };
        let sampling_decision: bool = match header_get(headers, "X-Sampling-Decision") {
            Some(v) => str_eq(v.as_str(), "true"),
            None => false,
        };
        Some(
            TraceContext {
                trace_id: TraceId::from_u128(trace_value),
                span_id: SpanId::from_u64(span_value),
                correlation_id: CorrelationId::from_string(correlation.clone()),
                sampling_decision,
            },
        )
    }
}

} // verus!
