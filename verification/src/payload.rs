//! Payload envelopes: the self-describing text values that tasks receive.
//!
//! A payload is either absent (the `null` token, for which no payload phase
//! takes place), a primitive wrapped as the single member `_inner_payload` of
//! an object, or a value that the caller built and serialized itself.

use vstd::prelude::*;
use vstd::string::*;

verus! {

/// A primitive input of a task.
#[derive(Clone, Debug, PartialEq, Eq)]
pub enum Scalar {
    /// A non-negative integer.
    Unsigned(u128),
    /// An integer that may be negative.
    Signed(i128),
    /// A string.
    Text(String),
}

/// The mathematical model of a [`Scalar`].
pub enum ScalarView {
    Number(int),
    Text(Seq<char>),
}

impl View for Scalar {
    type V = ScalarView;

    open spec fn view(&self) -> ScalarView {
        match self {
            Scalar::Unsigned(n) => ScalarView::Number(*n as int),
            Scalar::Signed(n) => ScalarView::Number(*n as int),
            Scalar::Text(s) => ScalarView::Text(s@),
        }
    }
}

/// The single input of a task, in one of its three shapes.
#[derive(Clone, Debug, PartialEq, Eq)]
pub enum Payload {
    /// No payload: the task runs without a payload phase.
    Null,
    /// A primitive, sent as `{"_inner_payload":<value>}`.
    Scalar(Scalar),
    /// A value that the caller serialized, sent as it is.
    Structured(String),
}

/// The mathematical model of a [`Payload`].
pub enum PayloadView {
    Null,
    Scalar(ScalarView),
    Structured(Seq<char>),
}

impl View for Payload {
    type V = PayloadView;

    open spec fn view(&self) -> PayloadView {
        match self {
            Payload::Null => PayloadView::Null,
            Payload::Scalar(s) => PayloadView::Scalar(s@),
            Payload::Structured(t) => PayloadView::Structured(t@),
        }
    }
}

/// The decimal digit `d`.
pub open spec fn digit(d: int) -> char {
    seq!['0', '1', '2', '3', '4', '5', '6', '7', '8', '9'][d]
}

/// The decimal digits of `n`, without leading zeros.
pub open spec fn nat_text(n: nat) -> Seq<char>
    decreases n,
{
    if n < 10 {
        seq![digit(n as int)]
    } else {
        nat_text(n / 10) + seq![digit((n % 10) as int)]
    }
}

/// The JSON number for `n`: a minus sign where `n` is negative, then its
/// decimal digits.
pub open spec fn int_text(n: int) -> Seq<char> {
    if n < 0 {
        seq!['-'] + nat_text((-n) as nat)
    } else {
        nat_text(n as nat)
    }
}

/// The number that the decimal digit `c` stands for.
pub open spec fn digit_value(c: char) -> int {
    c as u32 - '0' as u32
}

/// The number that the decimal digits `digits` stand for.
pub open spec fn nat_value(digits: Seq<char>) -> nat
    decreases digits.len(),
{
    if digits.len() == 0 {
        0
    } else {
        (nat_value(digits.drop_last()) * 10 + digit_value(digits.last())) as nat
    }
}

/// The number that a JSON number without fraction and exponent stands for.
pub open spec fn int_value(text: Seq<char>) -> int {
    if text.len() > 0 && text[0] == '-' {
        -(nat_value(text.drop_first()) as int)
    } else {
        nat_value(text) as int
    }
}

/// The digits of a number stand for that number.
pub proof fn lemma_nat_text_value(n: nat)
    ensures
        nat_value(nat_text(n)) == n,
        nat_text(n).len() > 0,
        nat_text(n)[0] != '-',
    decreases n,
{
    assert(forall|d: int| 0 <= d < 10 ==> digit_value(#[trigger] digit(d)) == d);
    if n < 10 {
        let text = nat_text(n);
        assert(text.drop_last() =~= Seq::<char>::empty());
        assert(nat_value(text.drop_last()) == 0);
    } else {
        lemma_nat_text_value(n / 10);
        let text = nat_text(n);
        assert(text.drop_last() =~= nat_text(n / 10));
        assert(text.last() == digit((n % 10) as int));
        assert(text[0] == nat_text(n / 10)[0]);
    }
}

/// The JSON number written for an integer stands for that integer.
pub proof fn lemma_int_text_value(n: int)
    ensures
        int_value(int_text(n)) == n,
{
    if n < 0 {
        lemma_nat_text_value((-n) as nat);
        assert(int_text(n).drop_first() =~= nat_text((-n) as nat));
    } else {
        lemma_nat_text_value(n as nat);
    }
}

/// The JSON string literal for `s`, quotes and escapes included, as
/// `serde_json::to_string` writes it.
pub uninterp spec fn json_string_text(s: Seq<char>) -> Seq<char>;

/// What a `serde_json::Value` holds, as its compact JSON text: the text that
/// `to_string` gives for it.
pub uninterp spec fn value_text(value: serde_json::Value) -> Seq<char>;

/// The text that stands for "no payload".
pub open spec fn null_token() -> Seq<char> {
    "null"@
}

/// The JSON text of a scalar.
pub open spec fn scalar_text(scalar: ScalarView) -> Seq<char> {
    match scalar {
        ScalarView::Number(n) => int_text(n),
        ScalarView::Text(s) => json_string_text(s),
    }
}

/// The model of a text that may be absent.
pub open spec fn option_text(text: Option<String>) -> Option<Seq<char>> {
    match text {
        Some(t) => Some(t@),
        None => None,
    }
}

/// The text sent in the payload phase, or `None` where there is no payload
/// phase.
pub open spec fn payload_text(payload: PayloadView) -> Option<Seq<char>> {
    match payload {
        PayloadView::Null => None,
        PayloadView::Scalar(s) => Some("{\"_inner_payload\":"@ + scalar_text(s) + "}"@),
        PayloadView::Structured(t) => Some(t),
    }
}

/// `serde_json::Value`, a JSON value that the caller has built. Nothing is
/// known of it here but its text, `value_text`.
#[verifier::external_type_specification]
#[verifier::external_body]
pub struct ExJsonValue(serde_json::Value);

/// `serde_json::Error`, the error of `serde_json::to_string`.
#[verifier::external_type_specification]
#[verifier::external_body]
pub struct ExJsonError(serde_json::Error);

/// `serde_json::to_string` on a `u128`. It writes the decimal digits of `n`
/// into a buffer of its own, which cannot fail: the call returns `Ok`, and
/// the text is those digits.
#[verifier::external_body]
fn json_of_u128(n: u128) -> (r: Result<String, serde_json::Error>)
    ensures
        r is Ok,
        r->Ok_0@ == nat_text(n as nat),
{
    serde_json::to_string(&n)
}

/// `serde_json::to_string` on an `i128`. It writes a minus sign where `n` is
/// negative, and then the decimal digits of its magnitude, into a buffer of
/// its own, which cannot fail: the call returns `Ok`, and the text is that
/// sign and those digits.
#[verifier::external_body]
fn json_of_i128(n: i128) -> (r: Result<String, serde_json::Error>)
    ensures
        r is Ok,
        r->Ok_0@ == int_text(n as int),
{
    serde_json::to_string(&n)
}

/// `serde_json::to_string` on a `str`. It writes the JSON string literal for
/// `s` into a buffer of its own, which cannot fail: the call returns `Ok`.
/// The literal depends on `s` alone and is not spelled out here; it goes by
/// the name `json_string_text`.
#[verifier::external_body]
fn json_of_str(s: &str) -> (r: Result<String, serde_json::Error>)
    ensures
        r is Ok,
        r->Ok_0@ == json_string_text(s@),
{
    serde_json::to_string(s)
}

/// `to_string` of a `serde_json::Value`, which writes the value as compact
/// JSON. The text depends on the value alone and is not spelled out here; it
/// goes by the name `value_text`.
#[verifier::external_body]
fn json_of_value(value: &serde_json::Value) -> (text: String)
    ensures
        text@ == value_text(*value),
{
    value.to_string()
}

/// `std::path::PathBuf`, a path in the file system. Nothing is known of it
/// here but its text, `path_text`.
#[verifier::external_type_specification]
#[verifier::external_body]
pub struct ExPathBuf(std::path::PathBuf);

/// What a path holds, as text: the text that `Path::to_string_lossy` gives
/// for it.
pub uninterp spec fn path_text(path: std::path::PathBuf) -> Seq<char>;

/// `Path::to_string_lossy`, which gives the path as text, with a
/// replacement character wherever the path is not Unicode. The text depends
/// on the path alone and is not spelled out here; it goes by the name
/// `path_text`.
#[verifier::external_body]
fn text_of_path(path: &std::path::PathBuf) -> (text: String)
    ensures
        text@ == path_text(*path),
{
    path.to_string_lossy().into_owned()
}

impl Scalar {
    /// The JSON text of this scalar.
    pub fn to_text(&self) -> (text: String)
        ensures
            text@ == scalar_text(self@),
    {
        match self {
            Scalar::Unsigned(n) => json_of_u128(*n).unwrap(),
            Scalar::Signed(n) => json_of_i128(*n).unwrap(),
            Scalar::Text(s) => json_of_str(s.as_str()).unwrap(),
        }
    }
}

impl Payload {
    /// The envelope for a value that the caller serialized itself. The text
    /// `null` means that there is no payload. Any other text is sent as it
    /// is, so it must be free of line breaks, as compact JSON is.
    pub fn from_text(text: String) -> (payload: Payload)
        ensures
            payload@ == (if text@ == null_token() {
                PayloadView::Null
            } else {
                PayloadView::Structured(text@)
            }),
    {
        if text == String::from_str("null") {
            Payload::Null
        } else {
            Payload::Structured(text)
        }
    }

    /// The text sent in the payload phase, or `None` where there is no
    /// payload phase.
    pub fn to_text(&self) -> (text: Option<String>)
        ensures
            option_text(text) == payload_text(self@),
    {
        match self {
            Payload::Null => None,
            Payload::Scalar(s) => {
                let mut text = String::from_str("{\"_inner_payload\":");
                let inner = s.to_text();
                text.append(inner.as_str());
                text.append("}");
                Some(text)
            },
            Payload::Structured(t) => Some(t.clone()),
        }
    }

    /// The primitive that this envelope wraps as `_inner_payload`, if it is
    /// of that shape.
    pub fn inner_payload(&self) -> (inner: Option<&Scalar>)
        ensures
            match inner_payload(self@) {
                Some(scalar) => inner is Some && inner->0@ == scalar,
                None => inner is None,
            },
    {
        match self {
            Payload::Scalar(s) => Some(s),
            _ => None,
        }
    }
}

/// The primitive that an envelope wraps as `_inner_payload`, if it is of
/// that shape.
pub open spec fn inner_payload(payload: PayloadView) -> Option<ScalarView> {
    match payload {
        PayloadView::Scalar(scalar) => Some(scalar),
        _ => None,
    }
}

/// A primitive that is wrapped in an envelope comes out of it unchanged,
/// and is sent as the single member `_inner_payload` of an object. A number
/// is sent as the digits that stand for it.
pub proof fn lemma_scalar_round_trip(scalar: ScalarView)
    ensures
        inner_payload(PayloadView::Scalar(scalar)) == Some(scalar),
        payload_text(PayloadView::Scalar(scalar)) == Some(
            "{\"_inner_payload\":"@ + scalar_text(scalar) + "}"@,
        ),
        scalar matches ScalarView::Number(n) ==> int_value(scalar_text(scalar)) == n,
{
    if let ScalarView::Number(n) = scalar {
        lemma_int_text_value(n);
    }
}

/// A value that can be sent to a worker as the input of a task.
pub trait AsPayload: Sized {
    /// The envelope that this value is sent in. A type that does not say
    /// what it is leaves it open.
    open spec fn envelope(&self) -> PayloadView {
        arbitrary()
    }

    /// Converts the value into its envelope.
    fn to_payload(self) -> (payload: Payload)
        ensures
            payload@ == self.envelope(),
    ;
}

/// The absent payload.
#[derive(Clone, Copy, Debug)]
pub struct EmptyPayload {}

impl EmptyPayload {
    /// The absent payload: a task that is given it runs without a payload
    /// phase.
    pub fn new() -> (payload: EmptyPayload)
        ensures
            payload_text(payload.envelope()) is None,
    {
        EmptyPayload {  }
    }

    /// `n` absent payloads, for a batch of `n` tasks that take no input.
    pub fn bulk(n: u32) -> (payloads: Vec<EmptyPayload>)
        ensures
            payloads@.len() == n,
    {
        let mut payloads: Vec<EmptyPayload> = Vec::new();
        let mut i: u32 = 0;
        while i < n
            invariant
                i <= n,
                payloads@.len() == i,
            decreases n - i,
        {
            payloads.push(EmptyPayload::new());
            i = i + 1;
        }
        payloads
    }
}

impl Default for EmptyPayload {
    fn default() -> (payload: EmptyPayload)
        ensures
            payload_text(payload.envelope()) is None,
    {
        EmptyPayload::new()
    }
}

impl AsPayload for EmptyPayload {
    open spec fn envelope(&self) -> PayloadView {
        PayloadView::Null
    }

    fn to_payload(self) -> Payload {
        Payload::Null
    }
}

impl AsPayload for Payload {
    open spec fn envelope(&self) -> PayloadView {
        self@
    }

    fn to_payload(self) -> Payload {
        self
    }
}

impl AsPayload for serde_json::Value {
    open spec fn envelope(&self) -> PayloadView {
        if value_text(*self) == null_token() {
            PayloadView::Null
        } else {
            PayloadView::Structured(value_text(*self))
        }
    }

    fn to_payload(self) -> Payload {
        Payload::from_text(json_of_value(&self))
    }
}

impl<T: AsPayload> AsPayload for Option<T> {
    open spec fn envelope(&self) -> PayloadView {
        match self {
            Some(value) => value.envelope(),
            None => PayloadView::Null,
        }
    }

    fn to_payload(self) -> Payload {
        match self {
            Some(value) => value.to_payload(),
            None => Payload::Null,
        }
    }
}

impl AsPayload for u64 {
    open spec fn envelope(&self) -> PayloadView {
        PayloadView::Scalar(ScalarView::Number(*self as int))
    }

    fn to_payload(self) -> Payload {
        Payload::Scalar(Scalar::Unsigned(self as u128))
    }
}

impl AsPayload for &str {
    open spec fn envelope(&self) -> PayloadView {
        PayloadView::Scalar(ScalarView::Text(self@))
    }

    fn to_payload(self) -> Payload {
        Payload::Scalar(Scalar::Text(self.to_owned()))
    }
}

impl AsPayload for std::path::PathBuf {
    open spec fn envelope(&self) -> PayloadView {
        PayloadView::Scalar(ScalarView::Text(path_text(*self)))
    }

    fn to_payload(self) -> Payload {
        Payload::Scalar(Scalar::Text(text_of_path(&self)))
    }
}

impl AsPayload for String {
    open spec fn envelope(&self) -> PayloadView {
        PayloadView::Scalar(ScalarView::Text(self@))
    }

    fn to_payload(self) -> Payload {
        Payload::Scalar(Scalar::Text(self))
    }
}

impl AsPayload for usize {
    open spec fn envelope(&self) -> PayloadView {
        PayloadView::Scalar(ScalarView::Number(*self as int))
    }

    fn to_payload(self) -> Payload {
        Payload::Scalar(Scalar::Unsigned(self as u128))
    }
}

impl AsPayload for u8 {
    open spec fn envelope(&self) -> PayloadView {
        PayloadView::Scalar(ScalarView::Number(*self as int))
    }

    fn to_payload(self) -> Payload {
        Payload::Scalar(Scalar::Unsigned(self as u128))
    }
}

impl AsPayload for u16 {
    open spec fn envelope(&self) -> PayloadView {
        PayloadView::Scalar(ScalarView::Number(*self as int))
    }

    fn to_payload(self) -> Payload {
        Payload::Scalar(Scalar::Unsigned(self as u128))
    }
}

impl AsPayload for u32 {
    open spec fn envelope(&self) -> PayloadView {
        PayloadView::Scalar(ScalarView::Number(*self as int))
    }

    fn to_payload(self) -> Payload {
        Payload::Scalar(Scalar::Unsigned(self as u128))
    }
}

impl AsPayload for u128 {
    open spec fn envelope(&self) -> PayloadView {
        PayloadView::Scalar(ScalarView::Number(*self as int))
    }

    fn to_payload(self) -> Payload {
        Payload::Scalar(Scalar::Unsigned(self as u128))
    }
}

impl AsPayload for isize {
    open spec fn envelope(&self) -> PayloadView {
        PayloadView::Scalar(ScalarView::Number(*self as int))
    }

    fn to_payload(self) -> Payload {
        Payload::Scalar(Scalar::Signed(self as i128))
    }
}

impl AsPayload for i8 {
    open spec fn envelope(&self) -> PayloadView {
        PayloadView::Scalar(ScalarView::Number(*self as int))
    }

    fn to_payload(self) -> Payload {
        Payload::Scalar(Scalar::Signed(self as i128))
    }
}

impl AsPayload for i16 {
    open spec fn envelope(&self) -> PayloadView {
        PayloadView::Scalar(ScalarView::Number(*self as int))
    }

    fn to_payload(self) -> Payload {
        Payload::Scalar(Scalar::Signed(self as i128))
    }
}

impl AsPayload for i32 {
    open spec fn envelope(&self) -> PayloadView {
        PayloadView::Scalar(ScalarView::Number(*self as int))
    }

    fn to_payload(self) -> Payload {
        Payload::Scalar(Scalar::Signed(self as i128))
    }
}

impl AsPayload for i64 {
    open spec fn envelope(&self) -> PayloadView {
        PayloadView::Scalar(ScalarView::Number(*self as int))
    }

    fn to_payload(self) -> Payload {
        Payload::Scalar(Scalar::Signed(self as i128))
    }
}

impl AsPayload for i128 {
    open spec fn envelope(&self) -> PayloadView {
        PayloadView::Scalar(ScalarView::Number(*self as int))
    }

    fn to_payload(self) -> Payload {
        Payload::Scalar(Scalar::Signed(self as i128))
    }
}

/// An ordered list of envelopes, built from values of any types that can be
/// sent.
pub struct PayloadList {
    pub items: Vec<Payload>,
}

impl View for PayloadList {
    type V = Seq<PayloadView>;

    open spec fn view(&self) -> Seq<PayloadView> {
        self.items@.map_values(|payload: Payload| payload@)
    }
}

/// An empty list of envelopes, to which values are added with
/// [`PayloadList::with`].
pub fn make_payloads() -> (list: PayloadList)
    ensures
        list@ == Seq::<PayloadView>::empty(),
{
    let list = PayloadList { items: Vec::new() };
    assert(list@ =~= Seq::<PayloadView>::empty());
    list
}

impl PayloadList {
    /// The list with the envelope of `value` added at its end.
    pub fn with<P: AsPayload>(self, value: P) -> (list: PayloadList)
        ensures
            list@ == self@.push(value.envelope()),
    {
        let mut items = self.items;
        items.push(value.to_payload());
        let list = PayloadList { items };
        assert(list@ =~= self@.push(value.envelope()));
        list
    }

    /// The envelopes, in the order in which they were added.
    pub fn into_vec(self) -> (items: Vec<Payload>)
        ensures
            items@.map_values(|payload: Payload| payload@) == self@,
    {
        self.items
    }
}

} // verus!
