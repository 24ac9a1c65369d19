//! Response builder: collects wire header lines, derives the status text,
//! decodes the body per the codec, and computes timing and size metadata.
use vstd::prelude::*;
use vstd::string::StrSliceExecFns;

use crate::codec::{decode_content, decode_rel, hview};
use crate::error::{InterceptorError, RequestResult};
use crate::interop::{Response, ResponseMeta, SizeInfo, TimingInfo};
use crate::strutil::{find_char, first_index_of, trim, trim_spec};

verus! {

#[verifier::external_type_specification]
#[verifier::external_body]
pub struct ExSystemTime(std::time::SystemTime);

/// The milliseconds between the epoch and the given instant, or nothing for
/// an instant before the epoch: a function of the instant alone.
pub uninterp spec fn epoch_millis_of(t: std::time::SystemTime) -> Option<u64>;

/// Relies on SystemTime::duration_since and Duration::as_millis: the offset
/// from the fixed epoch succeeds exactly for instants not before it; a
/// failure carries the clock error's text.
#[verifier::external_body]
fn system_time_epoch_millis(t: &std::time::SystemTime) -> (r: Result<u64, String>)
    ensures
        match r {
            Ok(ms) => epoch_millis_of(*t) == Some(ms),
            Err(_) => epoch_millis_of(*t) is None,
        },
{
    t.duration_since(std::time::UNIX_EPOCH).map(|d| d.as_millis() as u64).map_err(
        |e| e.to_string(),
    )
}

/// The status text of each known status code.
pub open spec fn status_text_spec(status: u16) -> Seq<char> {
    match status {
        100u16 => "Continue"@,
        101u16 => "Switching Protocols"@,
        200u16 => "OK"@,
        201u16 => "Created"@,
        202u16 => "Accepted"@,
        203u16 => "Non-Authoritative Information"@,
        204u16 => "No Content"@,
        205u16 => "Reset Content"@,
        206u16 => "Partial Content"@,
        300u16 => "Multiple Choices"@,
        301u16 => "Moved Permanently"@,
        302u16 => "Found"@,
        303u16 => "See Other"@,
        304u16 => "Not Modified"@,
        307u16 => "Temporary Redirect"@,
        308u16 => "Permanent Redirect"@,
        400u16 => "Bad Request"@,
        401u16 => "Unauthorized"@,
        402u16 => "Payment Required"@,
        403u16 => "Forbidden"@,
        404u16 => "Not Found"@,
        405u16 => "Method Not Allowed"@,
        406u16 => "Not Acceptable"@,
        407u16 => "Proxy Authentication Required"@,
        408u16 => "Request Timeout"@,
        409u16 => "Conflict"@,
        410u16 => "Gone"@,
        411u16 => "Length Required"@,
        412u16 => "Precondition Failed"@,
        413u16 => "Payload Too Large"@,
        414u16 => "URI Too Long"@,
        415u16 => "Unsupported Media Type"@,
        416u16 => "Range Not Satisfiable"@,
        417u16 => "Expectation Failed"@,
        418u16 => "I'm a teapot"@,
        421u16 => "Misdirected Request"@,
        422u16 => "Unprocessable Entity"@,
        426u16 => "Upgrade Required"@,
        428u16 => "Precondition Required"@,
        429u16 => "Too Many Requests"@,
        431u16 => "Request Header Fields Too Large"@,
        451u16 => "Unavailable For Legal Reasons"@,
        500u16 => "Internal Server Error"@,
        501u16 => "Not Implemented"@,
        502u16 => "Bad Gateway"@,
        503u16 => "Service Unavailable"@,
        504u16 => "Gateway Timeout"@,
        505u16 => "HTTP Version Not Supported"@,
        _ => "Unknown Status"@,
    }
}

/// The status text of a status code, from the static table.
pub fn get_status_text(status: u16) -> (r: &'static str)
    ensures
        r@ == status_text_spec(status),
{
    match status {
        100u16 => "Continue",
        101u16 => "Switching Protocols",
        200u16 => "OK",
        201u16 => "Created",
        202u16 => "Accepted",
        203u16 => "Non-Authoritative Information",
        204u16 => "No Content",
        205u16 => "Reset Content",
        206u16 => "Partial Content",
        300u16 => "Multiple Choices",
        301u16 => "Moved Permanently",
        302u16 => "Found",
        303u16 => "See Other",
        304u16 => "Not Modified",
        307u16 => "Temporary Redirect",
        308u16 => "Permanent Redirect",
        400u16 => "Bad Request",
        401u16 => "Unauthorized",
        402u16 => "Payment Required",
        403u16 => "Forbidden",
        404u16 => "Not Found",
        405u16 => "Method Not Allowed",
        406u16 => "Not Acceptable",
        407u16 => "Proxy Authentication Required",
        408u16 => "Request Timeout",
        409u16 => "Conflict",
        410u16 => "Gone",
        411u16 => "Length Required",
        412u16 => "Precondition Failed",
        413u16 => "Payload Too Large",
        414u16 => "URI Too Long",
        415u16 => "Unsupported Media Type",
        416u16 => "Range Not Satisfiable",
        417u16 => "Expectation Failed",
        418u16 => "I'm a teapot",
        421u16 => "Misdirected Request",
        422u16 => "Unprocessable Entity",
        426u16 => "Upgrade Required",
        428u16 => "Precondition Required",
        429u16 => "Too Many Requests",
        431u16 => "Request Header Fields Too Large",
        451u16 => "Unavailable For Legal Reasons",
        500u16 => "Internal Server Error",
        501u16 => "Not Implemented",
        502u16 => "Bad Gateway",
        503u16 => "Service Unavailable",
        504u16 => "Gateway Timeout",
        505u16 => "HTTP Version Not Supported",
        _ => "Unknown Status",
    }
}

/// How one received wire line splits: at the first `:`, both sides trimmed;
/// a line without `:` carries no header.
pub open spec fn header_line_spec(line: Seq<char>) -> Option<(Seq<char>, Seq<char>)> {
    let i = first_index_of(line, ':');
    if i < 0 {
        None
    } else {
        Some((trim_spec(line.subrange(0, i)), trim_spec(line.subrange(i + 1, line.len() as int))))
    }
}

/// Split one received header line on its first `:`, trimming both sides.
pub fn split_header_line(line: &str) -> (r: Option<(String, String)>)
    ensures
        match r {
            Some(kv) => header_line_spec(line@) == Some((kv.0@, kv.1@)),
            None => header_line_spec(line@) is None,
        },
{
    match find_char(line, ':') {
        Some(i) => {
            let len = line.unicode_len();
            let k = line.substring_char(0, i);
            let v = line.substring_char(i + 1, len);
            Some((trim(k), trim(v)))
        },
        None => None,
    }
}

/// What appending one (name, value) does to a collected header mapping: the
/// value joins the first entry of that name, or opens a new entry at the end,
/// keeping wire order.
pub open spec fn acc_spec(
    h: Seq<(Seq<char>, Seq<Seq<char>>)>,
    n: Seq<char>,
    v: Seq<char>,
) -> Seq<(Seq<char>, Seq<Seq<char>>)>
    decreases h.len(),
{
    if h.len() == 0 {
        seq![(n, seq![v])]
    } else if h[0].0 == n {
        seq![(h[0].0, h[0].1.push(v))] + h.drop_first()
    } else {
        seq![h[0]] + acc_spec(h.drop_first(), n, v)
    }
}

proof fn lemma_acc_at(h: Seq<(Seq<char>, Seq<Seq<char>>)>, n: Seq<char>, v: Seq<char>, i: int)
    requires
        0 <= i <= h.len(),
        forall|j: int| 0 <= j < i ==> h[j].0 != n,
        i == h.len() || h[i].0 == n,
    ensures
        acc_spec(h, n, v) == if i == h.len() {
            h.push((n, seq![v]))
        } else {
            h.update(i, (h[i].0, h[i].1.push(v)))
        },
    decreases i,
{
    if h.len() == 0 {
        assert(acc_spec(h, n, v) =~= h.push((n, seq![v])));
    } else if i == 0 {
        assert(acc_spec(h, n, v) =~= h.update(0, (h[0].0, h[0].1.push(v))));
    } else {
        lemma_acc_at(h.drop_first(), n, v, i - 1);
        if i == h.len() {
            assert(acc_spec(h, n, v) =~= h.push((n, seq![v])));
        } else {
            assert(h.drop_first()[i - 1] == h[i]);
            assert(acc_spec(h, n, v) =~= h.update(i, (h[i].0, h[i].1.push(v))));
        }
    }
}

/// Append one received (name, value) to the collected mapping.
pub fn accumulate_header(headers: &mut Vec<(String, Vec<String>)>, name: String, value: String)
    ensures
        hview(final(headers)@) == acc_spec(hview(old(headers)@), name@, value@),
{
    let ghost hv0 = hview(old(headers)@);
    let n = headers.len();
    let mut i: usize = 0;
    while i < n
        invariant
            n == headers@.len(),
            headers@ == old(headers)@,
            i <= n,
            forall|j: int| 0 <= j < i ==> headers@[j].0@ != name@,
        decreases n - i,
    {
        if crate::strutil::str_eq(headers[i].0.as_str(), name.as_str()) {
            let entry = headers.remove(i);
            let mut vals = entry.1;
            let ghost old_vals = vals@;
            vals.push(value);
            headers.insert(i, (entry.0, vals));
            proof {
                let hvp = hview(old(headers)@);
                assert(hvp.len() == old(headers)@.len());
                assert(hvp[i as int] == (
                    old(headers)@[i as int].0@,
                    old(headers)@[i as int].1@.map_values(|x: String| x@),
                ));
                assert forall|j: int| 0 <= j < i implies hvp[j].0 != name@ by {
                    assert(hvp[j] == (
                        old(headers)@[j].0@,
                        old(headers)@[j].1@.map_values(|x: String| x@),
                    ));
                }
                lemma_acc_at(hvp, name@, value@, i as int);
                let target = hvp.update(
                    i as int,
                    (hvp[i as int].0, hvp[i as int].1.push(value@)),
                );
                assert(headers@.len() == old(headers)@.len());
                assert forall|j: int| 0 <= j < headers@.len() && j != i implies headers@[j] == old(
                    headers,
                )@[j] by {
                    if j < i {
                        assert(headers@[j] == old(headers)@.remove(i as int)[j]);
                    } else {
                        assert(headers@[j] == old(headers)@.remove(i as int)[j - 1]);
                    }
                }
                assert(headers@[i as int].0 == old(headers)@[i as int].0);
                assert(headers@[i as int].1@ == old_vals.push(value));
                assert(hview(headers@).len() == target.len());
                assert forall|j: int| 0 <= j < target.len() implies hview(headers@)[j]
                    == target[j] by {
                    assert(hview(headers@)[j] == (
                        headers@[j].0@,
                        headers@[j].1@.map_values(|x: String| x@),
                    ));
                    assert(hvp[j] == (
                        old(headers)@[j].0@,
                        old(headers)@[j].1@.map_values(|x: String| x@),
                    ));
                    if j == i {
                        let m1 = headers@[j].1@.map_values(|x: String| x@);
                        let m2 = old(headers)@[j].1@.map_values(|x: String| x@).push(value@);
                        assert(m1.len() == m2.len());
                        assert forall|k: int| 0 <= k < m1.len() implies m1[k] == m2[k] by {
                            assert(m1[k] == headers@[j].1@[k]@);
                            if k < old_vals.len() {
                                assert(headers@[j].1@[k] == old(headers)@[j].1@[k]);
                                assert(old(headers)@[j].1@.map_values(|x: String| x@)[k] == old(
                                    headers,
                                )@[j].1@[k]@);
                            }
                        }
                        assert(m1 =~= m2);
                    } else {
                        assert(headers@[j] == old(headers)@[j]);
                    }
                }
                assert(hview(headers@) =~= target);
            }
            return ;
        }
        i += 1;
    }
    let mut vals: Vec<String> = Vec::new();
    vals.push(value);
    headers.push((name, vals));
    proof {
        lemma_acc_at(hv0, name@, value@, n as int);
        let target = hv0.push((name@, seq![value@]));
        assert(hview(headers@).len() == target.len());
        assert forall|j: int| 0 <= j < target.len() implies hview(headers@)[j] == target[j] by {
            assert(hview(headers@)[j] == (
                headers@[j].0@,
                headers@[j].1@.map_values(|x: String| x@),
            ));
            if j < n {
                assert(headers@[j] == old(headers)@[j]);
                assert(hv0[j] == (
                    old(headers)@[j].0@,
                    old(headers)@[j].1@.map_values(|x: String| x@),
                ));
            } else {
                assert(headers@[j].1@.map_values(|x: String| x@) =~= seq![value@]);
            }
        }
        assert(hview(headers@) =~= target);
    }
}

/// Terminal transfer state, ready to be assembled into a response.
pub struct ResponseHandler {
    pub id: i64,
    pub headers: Vec<(String, Vec<String>)>,
    pub body: Vec<u8>,
    pub status: u16,
    pub header_size: u64,
    pub start_time: std::time::SystemTime,
    pub end_time: std::time::SystemTime,
}

impl ResponseHandler {
    /// Capture the terminal state of one transfer.
    pub fn new(
        id: i64,
        headers: Vec<(String, Vec<String>)>,
        body: Vec<u8>,
        status: u16,
        header_size: u64,
        start_time: std::time::SystemTime,
        end_time: std::time::SystemTime,
    ) -> (r: ResponseHandler)
        ensures
            r.id == id,
            r.headers == headers,
            r.body == body,
            r.status == status,
            r.header_size == header_size,
            r.start_time == start_time,
            r.end_time == end_time,
    {
        ResponseHandler { id, headers, body, status, header_size, start_time, end_time }
    }

    /// Millisecond epoch offsets of the captured start and end instants. An
    /// instant that cannot be referenced to the epoch is a parse error.
    pub fn calculate_timing(&self) -> (r: RequestResult<TimingInfo>)
        ensures
            r matches Ok(t) ==> epoch_millis_of(self.start_time) == Some(t.start)
                && epoch_millis_of(self.end_time) == Some(t.end),
            r matches Err(e) ==> e matches InterceptorError::Parse { .. } && (epoch_millis_of(
                self.start_time,
            ) is None || epoch_millis_of(self.end_time) is None),
            epoch_millis_of(self.start_time) is Some && epoch_millis_of(self.end_time) is Some
                ==> r is Ok,
    {
        let start = match system_time_epoch_millis(&self.start_time) {
            Ok(ms) => ms,
            Err(cause) => {
                return Err(
                    InterceptorError::Parse {
                        message: "Failed to get start time".to_owned(),
                        cause: Some(cause),
                    },
                );
            },
        };
        let end = match system_time_epoch_millis(&self.end_time) {
            Ok(ms) => ms,
            Err(cause) => {
                return Err(
                    InterceptorError::Parse {
                        message: "Failed to get end time".to_owned(),
                        cause: Some(cause),
                    },
                );
            },
        };
        Ok(TimingInfo { start, end })
    }

    /// Assemble the structured response: echoed identifier, status with its
    /// derived text, collected headers, decoded content, and exact timing and
    /// size metadata — the total is exactly header bytes plus body bytes.
    /// The precondition is the machine limit of the total's field width.
    pub fn build(self) -> (r: RequestResult<Response>)
        requires
            self.header_size + self.body@.len() <= u64::MAX,
        ensures
            r matches Ok(resp) ==> resp.id == self.id && resp.status == self.status
                && resp.status_text@ == status_text_spec(self.status) && resp.headers
                == self.headers,
            r matches Ok(resp) ==> decode_rel(hview(self.headers@), self.body@, resp.content),
            r matches Ok(resp) ==> resp.meta.size.headers == self.header_size
                && resp.meta.size.body == self.body@.len() && resp.meta.size.total
                == self.header_size + self.body@.len(),
            r matches Ok(resp) ==> epoch_millis_of(self.start_time) == Some(resp.meta.timing.start)
                && epoch_millis_of(self.end_time) == Some(resp.meta.timing.end),
            r matches Err(e) ==> e matches InterceptorError::Parse { .. } && (epoch_millis_of(
                self.start_time,
            ) is None || epoch_millis_of(self.end_time) is None),
            epoch_millis_of(self.start_time) is Some && epoch_millis_of(self.end_time) is Some
                ==> r is Ok,
    {
        let content = decode_content(&self.headers, &self.body);
        let timing = match self.calculate_timing() {
            Ok(t) => t,
            Err(e) => {
                return Err(e);
            },
        };
        let body_len = self.body.len() as u64;
        let size = SizeInfo {
            headers: self.header_size,
            body: body_len,
            total: self.header_size + body_len,
        };
        let status_text = get_status_text(self.status).to_owned();
        Ok(
            Response {
                id: self.id,
                status: self.status,
                status_text,
                headers: self.headers,
                content,
                meta: ResponseMeta { timing, size },
            },
        )
    }
}

} // verus!
