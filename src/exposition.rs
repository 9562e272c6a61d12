use vstd::prelude::*;
use crate::registry::{Entry, Sample, samples_view};

verus! {

/// How one character of a description is written: a backslash and a line
/// break are written as `\\` and `\n`, so that a record keeps its lines.
pub open spec fn escape_char(c: char) -> Seq<char> {
    if c == '\\' {
        seq!['\\', '\\']
    } else if c == '\n' {
        seq!['\\', 'n']
    } else {
        seq![c]
    }
}

/// A description as written in its record.
pub open spec fn escaped(s: Seq<char>) -> Seq<char>
    decreases s.len(),
{
    if s.len() == 0 {
        Seq::empty()
    } else {
        escaped(s.drop_last()) + escape_char(s.last())
    }
}

/// `s` with backslashes and line breaks escaped.
pub fn escape_description(s: &str) -> (r: String)
    ensures
        r@ == escaped(s@),
{
    let len = s.unicode_len();
    let mut out = String::new();
    let mut i: usize = 0;
    while i < len
        invariant
            0 <= i <= len == s@.len(),
            out@ == escaped(s@.subrange(0, i as int)),
        decreases len - i,
    {
        let c = s.get_char(i);
        let ghost before = out@;
        proof {
            reveal_strlit("\\");
            reveal_strlit("n");
        }
        if c == '\\' {
            out.append("\\");
            out.append("\\");
            assert("\\"@ + "\\"@ =~= escape_char(c));
        } else if c == '\n' {
            out.append("\\");
            out.append("n");
            assert("\\"@ + "n"@ =~= escape_char(c));
        } else {
            out.append(s.substring_char(i, i + 1));
            assert(s@.subrange(i as int, i + 1) =~= escape_char(c));
        }
        assert(out@ == before + escape_char(c));
        let ghost next = s@.subrange(0, i + 1);
        assert(next.drop_last() =~= s@.subrange(0, i as int));
        assert(next.last() == c);
        assert(escaped(next) == escaped(next.drop_last()) + escape_char(next.last()));
        i = i + 1;
    }
    assert(s@.subrange(0, len as int) =~= s@);
    out
}

/// The record of one gauge: a help line, a type line and a value line.
pub open spec fn record_text(e: Entry, value_text: Seq<char>) -> Seq<char> {
    "# HELP "@ + e.0 + " "@ + escaped(e.1) + "\n"@ + "# TYPE "@ + e.0 + " gauge\n"@ + e.0 + " "@ + value_text
        + "\n"@
}

/// The records of `entries`, in order, the `i`-th value written as `texts[i]`.
pub open spec fn exposition(entries: Seq<Entry>, texts: Seq<Seq<char>>) -> Seq<char>
    decreases entries.len(),
{
    if entries.len() == 0 {
        Seq::empty()
    } else {
        exposition(entries.drop_last(), texts.drop_last()) + record_text(
            entries.last(),
            texts[entries.len() - 1],
        )
    }
}

pub open spec fn strings_view(s: Seq<String>) -> Seq<Seq<char>> {
    s.map_values(|t: String| t@)
}

/// The text of a snapshot: one record per sample, in the samples' order, with
/// `value_texts[i]` as the written form of `samples[i].value`.
pub fn encode_samples(samples: &Vec<Sample>, value_texts: &Vec<String>) -> (r: String)
    requires
        samples@.len() == value_texts@.len(),
    ensures
        r@ == exposition(samples_view(samples@), strings_view(value_texts@)),
{
    let ghost es = samples_view(samples@);
    let ghost ts = strings_view(value_texts@);
    let mut out = String::new();
    let mut i: usize = 0;
    while i < samples.len()
        invariant
            0 <= i <= samples@.len() == value_texts@.len(),
            es == samples_view(samples@),
            ts == strings_view(value_texts@),
            out@ == exposition(es.subrange(0, i as int), ts.subrange(0, i as int)),
        decreases samples@.len() - i,
    {
        let s = &samples[i];
        out.append("# HELP ");
        out.append(s.name.as_str());
        out.append(" ");
        let help = escape_description(s.description.as_str());
        out.append(help.as_str());
        out.append("\n");
        out.append("# TYPE ");
        out.append(s.name.as_str());
        out.append(" gauge\n");
        out.append(s.name.as_str());
        out.append(" ");
        out.append(value_texts[i].as_str());
        out.append("\n");
        proof {
            let e2 = es.subrange(0, i + 1);
            let t2 = ts.subrange(0, i + 1);
            assert(e2.drop_last() =~= es.subrange(0, i as int));
            assert(t2.drop_last() =~= ts.subrange(0, i as int));
            assert(e2.last() == s@);
            assert(t2[e2.len() - 1] == value_texts@[i as int]@);
        }
        i = i + 1;
    }
    assert(es.subrange(0, i as int) =~= es);
    assert(ts.subrange(0, i as int) =~= ts);
    out
}

/// What a client is sent in front of the snapshot text.
pub open spec fn status_head() -> Seq<char> {
    "HTTP/1.1 200 OK\r\n\r\n"@
}

/// The reply to a connection: a success status line, an empty line, then
/// `body` unchanged.
pub fn http_response(body: &str) -> (r: String)
    ensures
        r@ == status_head() + body@,
        r@.len() >= body@.len(),
        r@.subrange(r@.len() - body@.len(), r@.len() as int) == body@,
{
    let mut r = "HTTP/1.1 200 OK\r\n\r\n".to_owned();
    r.append(body);
    let ghost h = status_head();
    assert(r@.subrange(h.len() as int, r@.len() as int) =~= body@);
    r
}

} // verus!
