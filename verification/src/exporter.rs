//! The Prometheus exporter's answer to one request: which path was asked
//! for, and the HTTP response that path gets.
use vstd::prelude::*;
use vstd::string::StrSliceExecFns;
use vstd::utf8::encode_utf8;

use crate::text::{
    chars_of, decimal, is_whitespace, push_str, push_u64, string_of, sub_chars, text_eq, u64_text,
    unicode_white_space,
};

verus! {

/// The first index at or after `i` that does not hold white space.
pub open spec fn skip_space(s: Seq<char>, i: int) -> int
    decreases s.len() - i,
{
    if 0 <= i < s.len() && unicode_white_space(s[i]) {
        skip_space(s, i + 1)
    } else {
        i
    }
}

/// The first index at or after `i` that holds white space, or the end.
pub open spec fn skip_word(s: Seq<char>, i: int) -> int
    decreases s.len() - i,
{
    if 0 <= i < s.len() && !unicode_white_space(s[i]) {
        skip_word(s, i + 1)
    } else {
        i
    }
}

/// The second white-space-separated word of a request line (the target of
/// `GET /metrics HTTP/1.1`), or `/` where the line has fewer than two words.
pub open spec fn spec_request_path(line: Seq<char>) -> Seq<char> {
    let a = skip_space(line, 0);
    let b = skip_word(line, a);
    let c = skip_space(line, b);
    let d = skip_word(line, c);
    if c == d {
        "/"@
    } else {
        line.subrange(c, d)
    }
}

/// Moves `i` past white space.
fn skip_space_exec(v: &Vec<char>, i: usize) -> (r: usize)
    requires
        i <= v.len(),
    ensures
        r == skip_space(v@, i as int),
        i <= r <= v.len(),
{
    let mut j = i;
    while j < v.len() && is_whitespace(v[j])
        invariant
            i <= j <= v.len(),
            skip_space(v@, i as int) == skip_space(v@, j as int),
        decreases v.len() - j,
    {
        j = j + 1;
    }
    j
}

/// Moves `i` past a word.
fn skip_word_exec(v: &Vec<char>, i: usize) -> (r: usize)
    requires
        i <= v.len(),
    ensures
        r == skip_word(v@, i as int),
        i <= r <= v.len(),
{
    let mut j = i;
    while j < v.len() && !is_whitespace(v[j])
        invariant
            i <= j <= v.len(),
            skip_word(v@, i as int) == skip_word(v@, j as int),
        decreases v.len() - j,
    {
        j = j + 1;
    }
    j
}

/// The path a request line asks for.
pub fn request_path(line: &str) -> (r: String)
    ensures
        r@ == spec_request_path(line@),
{
    let v = chars_of(line);
    let a = skip_space_exec(&v, 0);
    let b = skip_word_exec(&v, a);
    let c = skip_space_exec(&v, b);
    let d = skip_word_exec(&v, c);
    if c == d {
        String::from_str("/")
    } else {
        string_of(&sub_chars(&v, c, d))
    }
}

/// A status line and headers, then the body, with its length in UTF-8 bytes
/// declared.
pub open spec fn plain_response(status: Seq<char>, extra: Seq<char>, body: Seq<char>) -> Seq<char> {
    "HTTP/1.1 "@ + status + "\r\n"@ + extra + "Content-Length: "@ + decimal(encode_utf8(body).len())
        + "\r\nConnection: close\r\n\r\n"@ + body
}

/// The response for `path`, given the rendered metrics or the message of
/// the error that rendering them raised: the metrics on `/metrics` and `/`,
/// a server error where rendering failed, and `not found` elsewhere.
pub open spec fn spec_metrics_response(path: Seq<char>, metrics: Result<Seq<char>, Seq<char>>) -> Seq<char> {
    if path == "/metrics"@ || path == "/"@ {
        match metrics {
            Ok(body) => plain_response(
                "200 OK"@,
                "Content-Type: text/plain; version=0.0.4; charset=utf-8\r\n"@,
                body,
            ),
            Err(e) => plain_response("500 Internal Server Error"@, Seq::empty(), "error: "@ + e),
        }
    } else {
        plain_response("404 Not Found"@, Seq::empty(), "not found"@)
    }
}

/// Appends a response with the given status line, extra headers and body.
fn push_response(out: &mut String, status: &str, extra: &str, body: &str)
    ensures
        final(out)@ == old(out)@ + plain_response(status@, extra@, body@),
{
    push_str(out, "HTTP/1.1 ");
    push_str(out, status);
    push_str(out, "\r\n");
    push_str(out, extra);
    push_str(out, "Content-Length: ");
    let n = body.as_bytes().len();
    push_u64(out, n as u64);
    push_str(out, "\r\nConnection: close\r\n\r\n");
    push_str(out, body);
    assert(n as nat == encode_utf8(body@).len());
    assert(out@ =~= old(out)@ + plain_response(status@, extra@, body@));
}

/// The response the exporter writes for a request line, given the rendered
/// metrics or the message of the error that rendering them raised.
pub fn metrics_response(request_line: &str, metrics: &Result<String, String>) -> (r: String)
    ensures
        r@ == spec_metrics_response(
            spec_request_path(request_line@),
            match metrics {
                Ok(b) => Ok(b@),
                Err(e) => Err(e@),
            },
        ),
{
    let path = request_path(request_line);
    let mut out = String::new();
    if text_eq(&path, "/metrics") || text_eq(&path, "/") {
        match metrics {
            Ok(body) => {
                push_response(
                    &mut out,
                    "200 OK",
                    "Content-Type: text/plain; version=0.0.4; charset=utf-8\r\n",
                    body.as_str(),
                );
            },
            Err(e) => {
                let mut body = String::new();
                push_str(&mut body, "error: ");
                push_str(&mut body, e.as_str());
                push_response(&mut out, "500 Internal Server Error", "", body.as_str());
                proof {
                    reveal_strlit("");
                }
            },
        }
    } else {
        push_response(&mut out, "404 Not Found", "", "not found");
        proof {
            reveal_strlit("");
        }
    }
    assert(out@ =~= spec_metrics_response(
        path@,
        match metrics {
            Ok(b) => Ok(b@),
            Err(e) => Err(e@),
        },
    ));
    out
}

/// The latest measurement's figures, each already written as a number.
#[derive(Debug)]
pub struct LatestFigures {
    pub download_kbps: String,
    pub upload_kbps: String,
    pub latency_ms: String,
    pub download_mbps: String,
    pub upload_mbps: String,
}

/// The summary's figures: the count, and the averages already written as
/// numbers.
#[derive(Debug)]
pub struct SummaryFigures {
    pub count: u64,
    pub avg_download_kbps: String,
    pub avg_upload_kbps: String,
    pub avg_latency_ms: String,
}

/// One metric in the Prometheus text format: its help line, its type line
/// and its sample.
#[verifier::opaque]
pub open spec fn metric_lines(name: Seq<char>, help: Seq<char>, kind: Seq<char>, value: Seq<char>) -> Seq<char> {
    "# HELP "@ + name + " "@ + help + "\n# TYPE "@ + name + " "@ + kind + "\n"@ + name + " "@ + value + "\n"@
}

/// The metrics of the latest measurement.
pub open spec fn latest_lines(l: LatestFigures) -> Seq<char> {
    metric_lines("speedtest_download_kbps"@, "Latest download speed in kbit/s"@, "gauge"@, l.download_kbps@)
        + metric_lines("speedtest_upload_kbps"@, "Latest upload speed in kbit/s"@, "gauge"@, l.upload_kbps@)
        + metric_lines("speedtest_latency_ms"@, "Latest latency in milliseconds"@, "gauge"@, l.latency_ms@)
        + metric_lines("speedtest_download_mbps"@, "Latest download speed in Mbit/s"@, "gauge"@, l.download_mbps@)
        + metric_lines("speedtest_upload_mbps"@, "Latest upload speed in Mbit/s"@, "gauge"@, l.upload_mbps@)
}

/// The metrics of the summary.
pub open spec fn summary_lines(s: SummaryFigures) -> Seq<char> {
    metric_lines(
        "speedtest_measurements_total"@,
        "Total number of recorded measurements"@,
        "counter"@,
        decimal(s.count as nat),
    ) + metric_lines("speedtest_avg_download_kbps"@, "Average download speed in kbit/s"@, "gauge"@, s.avg_download_kbps@)
        + metric_lines("speedtest_avg_upload_kbps"@, "Average upload speed in kbit/s"@, "gauge"@, s.avg_upload_kbps@)
        + metric_lines("speedtest_avg_latency_ms"@, "Average latency in milliseconds"@, "gauge"@, s.avg_latency_ms@)
}

/// The exporter's metrics page: the latest measurement's metrics if there
/// is one, then the summary's if there is one; empty for an empty store.
pub open spec fn spec_metrics_text(latest: Option<LatestFigures>, summary: Option<SummaryFigures>) -> Seq<char> {
    (match latest {
        Some(l) => latest_lines(l),
        None => Seq::empty(),
    }) + match summary {
        Some(s) => summary_lines(s),
        None => Seq::empty(),
    }
}

/// The sample line of metric `name` with value `value`, as it stands on its
/// own line of a page.
pub open spec fn sample_line(name: Seq<char>, value: Seq<char>) -> Seq<char> {
    "\n"@ + name + " "@ + value + "\n"@
}

/// `page` holds the sample of metric `name` with value `value` as a line of
/// its own.
pub open spec fn has_sample(page: Seq<char>, name: Seq<char>, value: Seq<char>) -> bool {
    exists|i: int|
        0 <= i && i + sample_line(name, value).len() <= page.len() && #[trigger] page.subrange(
            i,
            i + sample_line(name, value).len(),
        ) == sample_line(name, value)
}

/// The line declaring metric `name` to be of type `kind`.
pub open spec fn type_line(name: Seq<char>, kind: Seq<char>) -> Seq<char> {
    "\n# TYPE "@ + name + " "@ + kind + "\n"@
}

/// `page` declares metric `name` to be of type `kind` on a line of its own.
pub open spec fn has_type(page: Seq<char>, name: Seq<char>, kind: Seq<char>) -> bool {
    exists|i: int|
        0 <= i && i + type_line(name, kind).len() <= page.len() && #[trigger] page.subrange(
            i,
            i + type_line(name, kind).len(),
        ) == type_line(name, kind)
}

proof fn lemma_metric_has_sample(
    before: Seq<char>,
    name: Seq<char>,
    help: Seq<char>,
    kind: Seq<char>,
    value: Seq<char>,
    after: Seq<char>,
)
    ensures
        has_sample(before + metric_lines(name, help, kind, value) + after, name, value),
        has_type(before + metric_lines(name, help, kind, value) + after, name, kind),
{
    let head = "# HELP "@ + name + " "@ + help + "\n# TYPE "@ + name + " "@ + kind;
    let line = sample_line(name, value);
    let page = before + metric_lines(name, help, kind, value) + after;
    reveal(metric_lines);
    assert(metric_lines(name, help, kind, value) =~= head + line);
    assert(page =~= before + head + line + after);
    let i: int = (before.len() + head.len()) as int;
    assert(page.subrange(i, i + line.len() as int) =~= line);
    let help_line = "# HELP "@ + name + " "@ + help;
    let tline = type_line(name, kind);
    assert(metric_lines(name, help, kind, value) =~= help_line + tline + (name + " "@ + value + "\n"@));
    assert(page =~= before + help_line + tline + (name + " "@ + value + "\n"@ + after));
    let j: int = (before.len() + help_line.len()) as int;
    assert(page.subrange(j, j + tline.len() as int) =~= tline);
}

/// Each metric on the page carries its own figure: with a latest
/// measurement, every one of its five samples shows the matching field;
/// with a summary, the count and the three averages show theirs. The count
/// is declared a counter, the others gauges. An empty store gives an empty
/// page.
pub proof fn law_each_metric_carries_its_own_figure(
    latest: Option<LatestFigures>,
    summary: Option<SummaryFigures>,
)
    ensures
        latest matches Some(l) ==> {
            let page = spec_metrics_text(latest, summary);
            &&& has_sample(page, "speedtest_download_kbps"@, l.download_kbps@)
            &&& has_sample(page, "speedtest_upload_kbps"@, l.upload_kbps@)
            &&& has_sample(page, "speedtest_latency_ms"@, l.latency_ms@)
            &&& has_sample(page, "speedtest_download_mbps"@, l.download_mbps@)
            &&& has_sample(page, "speedtest_upload_mbps"@, l.upload_mbps@)
            &&& has_type(page, "speedtest_download_kbps"@, "gauge"@)
            &&& has_type(page, "speedtest_upload_kbps"@, "gauge"@)
            &&& has_type(page, "speedtest_latency_ms"@, "gauge"@)
            &&& has_type(page, "speedtest_download_mbps"@, "gauge"@)
            &&& has_type(page, "speedtest_upload_mbps"@, "gauge"@)
        },
        summary matches Some(t) ==> {
            let page = spec_metrics_text(latest, summary);
            &&& has_sample(page, "speedtest_measurements_total"@, decimal(t.count as nat))
            &&& has_sample(page, "speedtest_avg_download_kbps"@, t.avg_download_kbps@)
            &&& has_sample(page, "speedtest_avg_upload_kbps"@, t.avg_upload_kbps@)
            &&& has_sample(page, "speedtest_avg_latency_ms"@, t.avg_latency_ms@)
            &&& has_type(page, "speedtest_measurements_total"@, "counter"@)
            &&& has_type(page, "speedtest_avg_download_kbps"@, "gauge"@)
            &&& has_type(page, "speedtest_avg_upload_kbps"@, "gauge"@)
            &&& has_type(page, "speedtest_avg_latency_ms"@, "gauge"@)
        },
        latest is None && summary is None ==> spec_metrics_text(latest, summary).len() == 0,
{
    let page = spec_metrics_text(latest, summary);
    let lpart: Seq<char> = match latest {
        Some(l) => latest_lines(l),
        None => Seq::empty(),
    };
    let spart: Seq<char> = match summary {
        Some(t) => summary_lines(t),
        None => Seq::empty(),
    };
    assert(page == lpart + spart);
    if let Some(l) = latest {
        let m1 = metric_lines("speedtest_download_kbps"@, "Latest download speed in kbit/s"@, "gauge"@, l.download_kbps@);
        let m2 = metric_lines("speedtest_upload_kbps"@, "Latest upload speed in kbit/s"@, "gauge"@, l.upload_kbps@);
        let m3 = metric_lines("speedtest_latency_ms"@, "Latest latency in milliseconds"@, "gauge"@, l.latency_ms@);
        let m4 = metric_lines("speedtest_download_mbps"@, "Latest download speed in Mbit/s"@, "gauge"@, l.download_mbps@);
        let m5 = metric_lines("speedtest_upload_mbps"@, "Latest upload speed in Mbit/s"@, "gauge"@, l.upload_mbps@);
        assert(page =~= Seq::<char>::empty() + m1 + (m2 + m3 + m4 + m5 + spart));
        lemma_metric_has_sample(Seq::empty(), "speedtest_download_kbps"@, "Latest download speed in kbit/s"@, "gauge"@, l.download_kbps@, m2 + m3 + m4 + m5 + spart);
        assert(page =~= m1 + m2 + (m3 + m4 + m5 + spart));
        lemma_metric_has_sample(m1, "speedtest_upload_kbps"@, "Latest upload speed in kbit/s"@, "gauge"@, l.upload_kbps@, m3 + m4 + m5 + spart);
        assert(page =~= (m1 + m2) + m3 + (m4 + m5 + spart));
        lemma_metric_has_sample(m1 + m2, "speedtest_latency_ms"@, "Latest latency in milliseconds"@, "gauge"@, l.latency_ms@, m4 + m5 + spart);
        assert(page =~= (m1 + m2 + m3) + m4 + (m5 + spart));
        lemma_metric_has_sample(m1 + m2 + m3, "speedtest_download_mbps"@, "Latest download speed in Mbit/s"@, "gauge"@, l.download_mbps@, m5 + spart);
        assert(page =~= (m1 + m2 + m3 + m4) + m5 + spart);
        lemma_metric_has_sample(m1 + m2 + m3 + m4, "speedtest_upload_mbps"@, "Latest upload speed in Mbit/s"@, "gauge"@, l.upload_mbps@, spart);
    }
    if let Some(t) = summary {
        let n1 = metric_lines("speedtest_measurements_total"@, "Total number of recorded measurements"@, "counter"@, decimal(t.count as nat));
        let n2 = metric_lines("speedtest_avg_download_kbps"@, "Average download speed in kbit/s"@, "gauge"@, t.avg_download_kbps@);
        let n3 = metric_lines("speedtest_avg_upload_kbps"@, "Average upload speed in kbit/s"@, "gauge"@, t.avg_upload_kbps@);
        let n4 = metric_lines("speedtest_avg_latency_ms"@, "Average latency in milliseconds"@, "gauge"@, t.avg_latency_ms@);
        assert(page =~= lpart + n1 + (n2 + n3 + n4));
        lemma_metric_has_sample(lpart, "speedtest_measurements_total"@, "Total number of recorded measurements"@, "counter"@, decimal(t.count as nat), n2 + n3 + n4);
        assert(page =~= (lpart + n1) + n2 + (n3 + n4));
        lemma_metric_has_sample(lpart + n1, "speedtest_avg_download_kbps"@, "Average download speed in kbit/s"@, "gauge"@, t.avg_download_kbps@, n3 + n4);
        assert(page =~= (lpart + n1 + n2) + n3 + n4);
        lemma_metric_has_sample(lpart + n1 + n2, "speedtest_avg_upload_kbps"@, "Average upload speed in kbit/s"@, "gauge"@, t.avg_upload_kbps@, n4);
        assert(page =~= (lpart + n1 + n2 + n3) + n4 + Seq::<char>::empty());
        lemma_metric_has_sample(lpart + n1 + n2 + n3, "speedtest_avg_latency_ms"@, "Average latency in milliseconds"@, "gauge"@, t.avg_latency_ms@, Seq::empty());
    }
}

/// Appends one metric.
fn push_metric(out: &mut String, name: &str, help: &str, kind: &str, value: &str)
    ensures
        final(out)@ == old(out)@ + metric_lines(name@, help@, kind@, value@),
{
    push_str(out, "# HELP ");
    push_str(out, name);
    push_str(out, " ");
    push_str(out, help);
    push_str(out, "\n# TYPE ");
    push_str(out, name);
    push_str(out, " ");
    push_str(out, kind);
    push_str(out, "\n");
    push_str(out, name);
    push_str(out, " ");
    push_str(out, value);
    push_str(out, "\n");
    reveal(metric_lines);
    assert(out@ =~= old(out)@ + metric_lines(name@, help@, kind@, value@));
}

/// The text the exporter serves for the given figures.
pub fn metrics_text(latest: &Option<LatestFigures>, summary: &Option<SummaryFigures>) -> (r: String)
    ensures
        r@ == spec_metrics_text(*latest, *summary),
{
    let mut out = String::new();
    if let Some(l) = latest {
        push_metric(&mut out, "speedtest_download_kbps", "Latest download speed in kbit/s", "gauge", l.download_kbps.as_str());
        push_metric(&mut out, "speedtest_upload_kbps", "Latest upload speed in kbit/s", "gauge", l.upload_kbps.as_str());
        push_metric(&mut out, "speedtest_latency_ms", "Latest latency in milliseconds", "gauge", l.latency_ms.as_str());
        push_metric(&mut out, "speedtest_download_mbps", "Latest download speed in Mbit/s", "gauge", l.download_mbps.as_str());
        push_metric(&mut out, "speedtest_upload_mbps", "Latest upload speed in Mbit/s", "gauge", l.upload_mbps.as_str());
    }
    if let Some(s) = summary {
        let count = u64_text(s.count);
        push_metric(
            &mut out,
            "speedtest_measurements_total",
            "Total number of recorded measurements",
            "counter",
            count.as_str(),
        );
        push_metric(&mut out, "speedtest_avg_download_kbps", "Average download speed in kbit/s", "gauge", s.avg_download_kbps.as_str());
        push_metric(&mut out, "speedtest_avg_upload_kbps", "Average upload speed in kbit/s", "gauge", s.avg_upload_kbps.as_str());
        push_metric(&mut out, "speedtest_avg_latency_ms", "Average latency in milliseconds", "gauge", s.avg_latency_ms.as_str());
    }
    assert(out@ =~= spec_metrics_text(*latest, *summary));
    out
}

} // verus!
