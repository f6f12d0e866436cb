//! Tab-separated values.

use crate::exporters::Exporter;
use crate::text::push_char;
use vstd::prelude::*;
use vstd::string::StringExecFns;

verus! {

/// Writes strings as tab-separated values: a line of headers, then one line
/// for each string.
pub struct TsvExporter {
    headers: Vec<String>,
}

/// How one character of a value is written: a tab and a line feed as a
/// backslash with `t` or `n`, every other character as itself.
pub open spec fn escaped_char(c: char) -> Seq<char> {
    if c == '\t' {
        seq!['\\', 't']
    } else if c == '\n' {
        seq!['\\', 'n']
    } else {
        seq![c]
    }
}

/// How a value is written: character by character.
pub open spec fn escaped(text: Seq<char>) -> Seq<char>
    decreases text.len(),
{
    if text.len() == 0 {
        Seq::empty()
    } else {
        escaped(text.drop_last()) + escaped_char(text.last())
    }
}

/// The headers with a tab between each two of them. Headers are written as
/// they are.
pub open spec fn header_line(headers: Seq<String>) -> Seq<char>
    decreases headers.len(),
{
    if headers.len() == 0 {
        Seq::empty()
    } else if headers.len() == 1 {
        headers[0]@
    } else {
        header_line(headers.drop_last()) + seq!['\t'] + headers.last()@
    }
}

/// One line for each value.
pub open spec fn value_lines(values: Seq<String>) -> Seq<char>
    decreases values.len(),
{
    if values.len() == 0 {
        Seq::empty()
    } else {
        value_lines(values.drop_last()) + escaped(values.last()@) + seq!['\n']
    }
}

/// The whole document: the line of headers, then the lines of the values.
pub open spec fn tsv_document(headers: Seq<String>, values: Seq<String>) -> Seq<char> {
    header_line(headers) + seq!['\n'] + value_lines(values)
}

/// Appends `text` to `out`, escaped.
fn push_escaped(out: &mut String, text: &str)
    ensures
        final(out)@ == old(out)@ + escaped(text@),
{
    let ghost start = out@;
    for c in it: text.chars()
        invariant
            it.seq() == text@,
            out@ == start + escaped(text@.subrange(0, it.index())),
    {
        proof {
            let longer = text@.subrange(0, it.index() + 1);
            assert(longer.drop_last() =~= text@.subrange(0, it.index()));
            assert(longer.last() == c);
        }
        if c == '\t' {
            push_char(out, '\\');
            push_char(out, 't');
        } else if c == '\n' {
            push_char(out, '\\');
            push_char(out, 'n');
        } else {
            push_char(out, c);
        }
        proof {
            assert(out@ =~= start + escaped(text@.subrange(0, it.index() + 1)));
        }
    }
    proof {
        assert(text@.subrange(0, text@.len() as int) =~= text@);
    }
}

impl View for TsvExporter {
    type V = Seq<String>;

    /// The headers.
    closed spec fn view(&self) -> Seq<String> {
        self.headers@
    }
}

impl TsvExporter {
    /// An exporter with the one header `generated_data`.
    pub fn new() -> (r: Self)
        ensures
            r@.len() == 1,
            r@[0]@ == "generated_data"@,
    {
        let mut headers: Vec<String> = Vec::new();
        headers.push(String::from_str("generated_data"));
        Self { headers }
    }

    /// An exporter with the given headers.
    pub fn with_headers(headers: Vec<String>) -> (r: Self)
        ensures
            r@ == headers@,
    {
        Self { headers }
    }

    /// The headers.
    pub fn headers(&self) -> (r: &Vec<String>)
        ensures
            r@ == self@,
    {
        &self.headers
    }

    /// The document that holds `data`.
    pub fn render(&self, data: &[String]) -> (r: String)
        ensures
            r@ == tsv_document(self@, data@),
    {
        let mut out = String::new();
        let mut at: usize = 0;
        while at < self.headers.len()
            invariant
                at <= self.headers.len(),
                out@ == header_line(self.headers@.subrange(0, at as int)),
            decreases self.headers.len() - at,
        {
            proof {
                let longer = self.headers@.subrange(0, at + 1);
                assert(longer.drop_last() =~= self.headers@.subrange(0, at as int));
                assert(longer.last() == self.headers@[at as int]);
            }
            if at > 0 {
                push_char(&mut out, '\t');
            }
            out.append(self.headers[at].as_str());
            proof {
                assert(out@ =~= header_line(self.headers@.subrange(0, at + 1)));
            }
            at = at + 1;
        }
        proof {
            assert(self.headers@.subrange(0, self.headers.len() as int) =~= self.headers@);
        }
        push_char(&mut out, '\n');
        let ghost head = out@;
        let mut row: usize = 0;
        while row < data.len()
            invariant
                row <= data.len(),
                head == header_line(self.headers@) + seq!['\n'],
                out@ == head + value_lines(data@.subrange(0, row as int)),
            decreases data.len() - row,
        {
            proof {
                let longer = data@.subrange(0, row + 1);
                assert(longer.drop_last() =~= data@.subrange(0, row as int));
                assert(longer.last() == data@[row as int]);
            }
            push_escaped(&mut out, data[row].as_str());
            push_char(&mut out, '\n');
            proof {
                assert(out@ =~= head + value_lines(data@.subrange(0, row + 1)));
            }
            row = row + 1;
        }
        proof {
            assert(data@.subrange(0, data.len() as int) =~= data@);
        }
        out
    }
}

impl Default for TsvExporter {
    fn default() -> (r: Self)
        ensures
            r@.len() == 1,
            r@[0]@ == "generated_data"@,
    {
        Self::new()
    }
}

impl Exporter for TsvExporter {
    open spec fn name(&self) -> Seq<char> {
        "TSV"@
    }

    fn format_name(&self) -> (r: &'static str) {
        "TSV"
    }
}

} // verus!
