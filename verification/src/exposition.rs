//! The reply of the `/metrics` endpoint: every registered metric in the
//! Prometheus text exposition format, or a plain-text error when encoding fails.

use vstd::prelude::*;

use prometheus::proto::MetricFamily;
use prometheus::proto::MetricType;
use prometheus::Encoder;
use prometheus::TextEncoder;

verus! {

#[verifier::external_type_specification]
#[verifier::external_body]
pub struct ExMetricFamily(MetricFamily);

#[verifier::external_type_specification]
#[verifier::external_body]
pub struct ExPrometheusError(prometheus::Error);

/// Calls `prometheus::gather()`: a snapshot of every metric family in the default
/// registry. Nothing is promised of it here: it reflects whatever has been
/// registered and recorded in the process so far.
#[verifier::external_body]
fn gather_metric_families() -> (families: Vec<MetricFamily>) {
    prometheus::gather()
}

/// The text exposition of a list of metric families: what the text encoder
/// writes for them. Beyond its empty case and how it opens and closes (stated on
/// `encode_text`), its content is left to this name.
pub uninterp spec fn text_exposition(families: Seq<MetricFamily>) -> Seq<u8>;

/// Whether the text encoder accepts a list of metric families. In the encoder's
/// source the refusal comes from a family without metrics or without a name; no
/// clause here states which families those are.
pub uninterp spec fn text_encodable(families: Seq<MetricFamily>) -> bool;

/// Whether a metric family is of type `UNTYPED`.
pub uninterp spec fn family_untyped(family: MetricFamily) -> bool;

/// None of the families is of type `UNTYPED`.
pub open spec fn all_typed(families: Seq<MetricFamily>) -> bool {
    forall|i: int| 0 <= i < families.len() ==> !family_untyped(#[trigger] families[i])
}

/// Calls `MetricFamily::get_field_type` and tells whether the family's type is
/// `MetricType::UNTYPED`.
#[verifier::external_body]
fn is_untyped(family: &MetricFamily) -> (untyped: bool)
    ensures
        untyped == family_untyped(*family),
{
    match family.get_field_type() {
        MetricType::COUNTER => false,
        MetricType::GAUGE => false,
        MetricType::SUMMARY => false,
        MetricType::UNTYPED => true,
        MetricType::HISTOGRAM => false,
    }
}

/// Calls `<TextEncoder as Encoder>::encode` with `buf` as the writer. The encoder
/// panics on a family of type `UNTYPED` that it reaches with metrics, so such
/// families are left out. It then depends on the families alone: it succeeds
/// unless a family has no metrics or no name (writing into a `Vec` never fails),
/// and on success it has appended the text exposition of the families to `buf`.
/// With no families it writes nothing and succeeds. On success with some
/// families, the appended text opens with the `# ` of a `# HELP` or `# TYPE`
/// header and ends with a newline. What a refused call leaves in `buf` beyond its
/// old contents is not stated.
#[verifier::external_body]
fn encode_text(families: &Vec<MetricFamily>, buf: &mut Vec<u8>) -> (result: Result<
    (),
    prometheus::Error,
>)
    requires
        all_typed(families@),
    ensures
        old(buf)@.is_prefix_of(final(buf)@),
        result is Ok <==> text_encodable(families@),
        result is Ok ==> final(buf)@ == old(buf)@ + text_exposition(families@),
        families@.len() == 0 ==> result is Ok && final(buf)@ == old(buf)@,
        result is Ok && families@.len() > 0 ==> header_to_newline(
            final(buf)@.subrange(old(buf)@.len() as int, final(buf)@.len() as int),
        ),
{
    TextEncoder::new().encode(families, buf)
}

/// Calls `<TextEncoder as Encoder>::format_type`, which returns the constant
/// `TEXT_FORMAT` of the text encoder: `text/plain; version=0.0.4`.
#[verifier::external_body]
fn text_format_type() -> (format: String)
    ensures
        format@ == text_format_spec(),
{
    TextEncoder::new().format_type().to_string()
}

/// How exposition text opens and closes: it checks only that the bytes open with
/// `# ` (as a `# HELP` or `# TYPE` header does) and that the last byte is a newline.
pub open spec fn header_to_newline(bytes: Seq<u8>) -> bool {
    &&& bytes.len() >= 2
    &&& bytes[0] == 35u8
    &&& bytes[1] == 32u8
    &&& bytes.last() == 10u8
}

/// The content type of the Prometheus text exposition format.
pub open spec fn text_format_spec() -> Seq<char> {
    "text/plain; version=0.0.4"@
}

/// The message sent when the metrics cannot be encoded.
pub open spec fn encoding_error_message() -> Seq<char> {
    "encoding error"@
}

/// Why the metrics could not be exposed.
#[derive(Clone, Copy, Debug, PartialEq, Eq)]
pub enum ExpositionError {
    /// The encoder refused the metric families: one has no metrics or no name.
    Encoding,
    /// A metric family is of type `UNTYPED`, which the text encoder cannot write.
    Untyped,
}

/// The outcome of encoding a list of metric families.
pub open spec fn encoding_spec(families: Seq<MetricFamily>) -> Result<Seq<u8>, ExpositionError> {
    if !all_typed(families) {
        Err(ExpositionError::Untyped)
    } else if !text_encodable(families) {
        Err(ExpositionError::Encoding)
    } else {
        Ok(text_exposition(families))
    }
}

/// The reply of the metrics endpoint.
pub enum MetricsResponse {
    /// `200 OK` with the encoded metrics, sent with their content type.
    Exposition { content_type: String, body: Vec<u8> },
    /// `500 Internal Server Error` with a plain-text message.
    Failure { message: String },
}

impl MetricsResponse {
    /// The HTTP status code of the reply.
    pub open spec fn status_spec(&self) -> u16 {
        match self {
            MetricsResponse::Exposition { .. } => 200,
            MetricsResponse::Failure { .. } => 500,
        }
    }

    /// The HTTP status code of the reply: 200 for the metrics, 500 for a failure.
    pub fn status(&self) -> (code: u16)
        ensures
            code == self.status_spec(),
            self is Exposition ==> code == 200,
            self is Failure ==> code == 500,
    {
        match self {
            MetricsResponse::Exposition { .. } => 200,
            MetricsResponse::Failure { .. } => 500,
        }
    }
}

/// A reply that carries the metrics is `200 OK` and a failure is `500 Internal Server
/// Error`, whatever the body or message.
pub proof fn lemma_status_by_variant(response: MetricsResponse)
    ensures
        response is Exposition ==> response.status_spec() == 200,
        response is Failure ==> response.status_spec() == 500,
{
}

/// The reply for the outcome of encoding the metrics: the encoded bytes with the
/// encoder's content type, or the encoding error message.
pub fn metrics_response(encoded: Result<Vec<u8>, ExpositionError>, format_type: String) -> (response:
    MetricsResponse)
    ensures
        match encoded {
            Ok(bytes) => response matches MetricsResponse::Exposition { content_type, body }
                && content_type@ == format_type@ && body@ == bytes@,
            Err(_) => response matches MetricsResponse::Failure { message }
                && message@ == encoding_error_message(),
        },
{
    match encoded {
        Ok(bytes) => MetricsResponse::Exposition { content_type: format_type, body: bytes },
        Err(_) => MetricsResponse::Failure { message: "encoding error".to_owned() },
    }
}

/// The outcome of running the encoder into `buf`: the written bytes when the
/// encoder succeeded, otherwise an encoding error.
pub fn encoding_outcome(result: Result<(), prometheus::Error>, buf: Vec<u8>) -> (outcome: Result<
    Vec<u8>,
    ExpositionError,
>)
    ensures
        match result {
            Ok(()) => outcome matches Ok(bytes) && bytes@ == buf@,
            Err(_) => outcome == Err::<Vec<u8>, ExpositionError>(ExpositionError::Encoding),
        },
{
    match result {
        Ok(()) => Ok(buf),
        Err(_) => Err(ExpositionError::Encoding),
    }
}

/// Tells whether every family is typed, checking them one by one.
fn check_all_typed(families: &Vec<MetricFamily>) -> (typed: bool)
    ensures
        typed == all_typed(families@),
{
    let mut i: usize = 0;
    while i < families.len()
        invariant
            i <= families@.len(),
            forall|j: int| 0 <= j < i ==> !family_untyped(#[trigger] families@[j]),
        decreases families@.len() - i,
    {
        if is_untyped(&families[i]) {
            return false;
        }
        i = i + 1;
    }
    true
}

/// Encodes metric families in the text exposition format into a fresh buffer.
/// A family of type `UNTYPED` is refused before the encoder runs; otherwise the
/// result is the encoder's text of exactly these families, or its refusal.
pub fn encode_families(families: &Vec<MetricFamily>) -> (encoded: Result<Vec<u8>, ExpositionError>)
    ensures
        match encoding_spec(families@) {
            Ok(text) => encoded matches Ok(bytes) && bytes@ == text,
            Err(e) => encoded == Err::<Vec<u8>, ExpositionError>(e),
        },
        families@.len() == 0 ==> (encoded matches Ok(bytes) && bytes@.len() == 0),
        families@.len() > 0 ==> (encoded matches Ok(bytes) ==> header_to_newline(bytes@)),
{
    if !check_all_typed(families) {
        return Err(ExpositionError::Untyped);
    }
    let mut buf: Vec<u8> = Vec::new();
    let result = encode_text(families, &mut buf);
    proof {
        assert(buf@.subrange(0, buf@.len() as int) =~= buf@);
        if result is Ok {
            assert(buf@ =~= text_exposition(families@));
        }
    }
    encoding_outcome(result, buf)
}

/// The reply of the metrics endpoint for a list of metric families: `200` with the
/// text format's content type and the families' text exposition when they can be
/// encoded, otherwise `500` with the encoding error message.
pub fn metrics_reply(families: &Vec<MetricFamily>) -> (response: MetricsResponse)
    ensures
        reply_for(families@, response),
        response matches MetricsResponse::Exposition { body, .. } ==> if families@.len() == 0 {
            body@.len() == 0
        } else {
            header_to_newline(body@)
        },
{
    let encoded = encode_families(families);
    metrics_response(encoded, text_format_type())
}

/// Whether `response` is the reply of the metrics endpoint for `families`: `200`
/// with the text format's content type and the families' text exposition when they
/// can be encoded, otherwise `500` with the encoding error message.
pub open spec fn reply_for(families: Seq<MetricFamily>, response: MetricsResponse) -> bool {
    match encoding_spec(families) {
        Ok(text) => response matches MetricsResponse::Exposition { content_type, body }
            && content_type@ == text_format_spec() && body@ == text,
        Err(_) => response matches MetricsResponse::Failure { message } && message@
            == encoding_error_message(),
    }
}

/// Gathers every registered metric and builds the reply of the metrics endpoint:
/// the reply of [`metrics_reply`] for whatever the registry holds now.
pub fn render_metrics() -> (response: MetricsResponse)
    ensures
        exists|families: Seq<MetricFamily>| reply_for(families, response),
        response matches MetricsResponse::Exposition { content_type, body } ==> content_type@
            == text_format_spec() && (body@.len() == 0 || header_to_newline(body@)),
        response matches MetricsResponse::Failure { message } ==> message@
            == encoding_error_message(),
{
    let families = gather_metric_families();
    let response = metrics_reply(&families);
    assert(reply_for(families@, response));
    response
}

} // verus!
