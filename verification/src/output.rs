//! Output rendering: the pretty-printed JSON document — a function of the
//! tally as a mapping, its keys in ascending code order — and the table
//! rows, one per entry in insertion order.

use vstd::prelude::*;

verus! {

use crate::tally::Tally;
use crate::text::dec_chars;
use crate::text::dec_string_u32;
use crate::types::OutputFormat;
use vstd::string::StringExecFns;

/// One rendered line of the JSON document body, without its separator:
/// two spaces of indent, the quoted status code, a colon, and the count.
pub open spec fn json_entry_chars(code: u16, count: i32) -> Seq<char> {
    seq![' ', ' ', '"'] + dec_chars(code as nat) + seq!['"', ':', ' '] + dec_chars(count as nat)
}

/// The body of the JSON document: every entry in the given order, each on
/// its own line, separated by commas.
pub open spec fn json_body_chars(s: Seq<(u16, i32)>) -> Seq<char>
    decreases s.len(),
{
    if s.len() == 0 {
        Seq::empty()
    } else {
        json_body_chars(s.drop_last()) + (if s.len() == 1 {
            seq!['\n']
        } else {
            seq![',', '\n']
        }) + json_entry_chars(s.last().0, s.last().1)
    }
}

/// The whole pretty-printed JSON document for a tally's entries.
pub open spec fn json_chars(s: Seq<(u16, i32)>) -> Seq<char> {
    if s.len() == 0 {
        seq!['{', '}']
    } else {
        seq!['{'] + json_body_chars(s) + seq!['\n', '}']
    }
}

/// The entries of a tally map with codes below `n`, in ascending code
/// order.
pub open spec fn ascending_pairs_upto(m: Map<u16, i32>, n: int) -> Seq<(u16, i32)>
    decreases n,
{
    if n <= 0 {
        Seq::empty()
    } else if m.dom().contains((n - 1) as u16) {
        ascending_pairs_upto(m, n - 1).push(((n - 1) as u16, m[(n - 1) as u16]))
    } else {
        ascending_pairs_upto(m, n - 1)
    }
}

/// The entries of a tally map in ascending code order: the canonical order
/// of the rendered JSON document, a function of the mapping alone.
pub open spec fn ascending_pairs(m: Map<u16, i32>) -> Seq<(u16, i32)> {
    ascending_pairs_upto(m, 65536)
}

/// Collects a tally's entries in ascending code order.
fn sorted_entries(t: &Tally) -> (pairs: Vec<(u16, i32)>)
    requires
        t.wf(),
    ensures
        pairs@ == ascending_pairs(t.as_map()),
        forall|i: int| 0 <= i < pairs@.len() ==> (#[trigger] pairs@[i]).1 >= 1,
{
    proof {
        crate::tally::lemma_wf_map_positive(*t);
    }
    let mut pairs: Vec<(u16, i32)> = Vec::new();
    let mut c: usize = 0;
    while c < 65536
        invariant
            t.wf(),
            c <= 65536,
            pairs@ == ascending_pairs_upto(t.as_map(), c as int),
            forall|k: u16| #[trigger] t.as_map().dom().contains(k) ==> t.as_map()[k] >= 1,
            forall|i: int| 0 <= i < pairs@.len() ==> (#[trigger] pairs@[i]).1 >= 1,
        decreases 65536 - c,
    {
        let count = t.get(c as u16);
        if count != 0 {
            pairs.push((c as u16, count));
        }
        c = c + 1;
    }
    pairs
}

/// Renders a tally as a pretty-printed JSON object whose keys are the
/// string forms of the status codes, in ascending code order: a function
/// of the tally as a mapping alone, so two tallies that agree as mappings
/// — the same tally twice, or the same outcomes counted in another arrival
/// order — render byte-identical text.
pub fn render_json(t: &Tally) -> (r: String)
    requires
        t.wf(),
    ensures
        r@ == json_chars(ascending_pairs(t.as_map())),
{
    let pairs = sorted_entries(t);
    proof {
        reveal_strlit("{}");
        reveal_strlit("{");
    }
    let len = pairs.len();
    if len == 0 {
        let r = "{}".to_owned();
        assert(r@ =~= json_chars(pairs@));
        return r;
    }
    let mut out: String = "{".to_owned();
    proof {
        assert(pairs@.take(0) =~= Seq::<(u16, i32)>::empty());
        assert(out@ =~= seq!['{'] + json_body_chars(pairs@.take(0)));
    }
    let mut i: usize = 0;
    while i < len
        invariant
            len == pairs@.len(),
            forall|j: int| 0 <= j < pairs@.len() ==> (#[trigger] pairs@[j]).1 >= 1,
            i <= len,
            out@ == seq!['{'] + json_body_chars(pairs@.take(i as int)),
        decreases len - i,
    {
        proof {
            reveal_strlit("\n");
            reveal_strlit(",\n");
            reveal_strlit("  \"");
            reveal_strlit("\": ");
        }
        let entry = pairs[i];
        proof {
            assert((pairs@[i as int]).1 >= 1);
        }
        if i == 0 {
            out.append("\n");
        } else {
            out.append(",\n");
        }
        out.append("  \"");
        let code_s = dec_string_u32(entry.0 as u32);
        out.append(code_s.as_str());
        out.append("\": ");
        let count_s = dec_string_u32(entry.1 as u32);
        out.append(count_s.as_str());
        proof {
            let prefix = pairs@.take(i as int);
            let cur = pairs@.take(i + 1);
            assert(cur.drop_last() =~= prefix);
            assert(cur.last() == pairs@[i as int]);
            assert(out@ =~= seq!['{'] + json_body_chars(cur));
        }
        i = i + 1;
    }
    out.append("\n}");
    proof {
        reveal_strlit("\n}");
        assert(pairs@.take(len as int) =~= pairs@);
        assert(out@ =~= json_chars(pairs@));
    }
    out
}

/// Renders a tally as table rows: the header row, then one row per entry in
/// insertion order, each cell the decimal text of the code or the count.
pub fn render_table_rows(t: &Tally) -> (rows: Vec<(String, String)>)
    requires
        t.wf(),
    ensures
        rows@.len() == t.pairs().len() + 1,
        rows@[0].0@ == "Status Code"@,
        rows@[0].1@ == "Count"@,
        forall|i: int|
            0 <= i < t.pairs().len() ==> (#[trigger] rows@[i + 1]).0@ == dec_chars(
                t.pairs()[i].0 as nat,
            ) && rows@[i + 1].1@ == dec_chars(t.pairs()[i].1 as nat),
{
    let mut rows: Vec<(String, String)> = Vec::new();
    rows.push(("Status Code".to_owned(), "Count".to_owned()));
    let len = t.len();
    let mut i: usize = 0;
    while i < len
        invariant
            t.wf(),
            len == t.pairs().len(),
            i <= len,
            rows@.len() == i + 1,
            rows@[0].0@ == "Status Code"@,
            rows@[0].1@ == "Count"@,
            forall|j: int|
                0 <= j < i ==> (#[trigger] rows@[j + 1]).0@ == dec_chars(t.pairs()[j].0 as nat)
                    && rows@[j + 1].1@ == dec_chars(t.pairs()[j].1 as nat),
        decreases len - i,
    {
        let entry = t.entry_at(i);
        proof {
            assert((t.pairs()[i as int]).1 >= 1);
        }
        let code_s = dec_string_u32(entry.0 as u32);
        let count_s = dec_string_u32(entry.1 as u32);
        rows.push((code_s, count_s));
        i = i + 1;
    }
    rows
}

/// A finished rendering: the JSON text, or the rows of the table.
pub enum RenderedOutput {
    Json(String),
    Table(Vec<(String, String)>),
}

/// What it means for a rendering to be the correct one for a tally, per
/// format: the exact JSON text, or the exact table rows.
pub open spec fn rendering_of(format: OutputFormat, t: Tally, r: RenderedOutput) -> bool {
    match format {
        OutputFormat::Json => match r {
            RenderedOutput::Json(s) => s@ == json_chars(ascending_pairs(t.as_map())),
            RenderedOutput::Table(_) => false,
        },
        OutputFormat::Table => match r {
            RenderedOutput::Table(rows) => {
                &&& rows@.len() == t.pairs().len() + 1
                &&& rows@[0].0@ == "Status Code"@
                &&& rows@[0].1@ == "Count"@
                &&& forall|i: int|
                    0 <= i < t.pairs().len() ==> (#[trigger] rows@[i + 1]).0@ == dec_chars(
                        t.pairs()[i].0 as nat,
                    ) && rows@[i + 1].1@ == dec_chars(t.pairs()[i].1 as nat)
            },
            RenderedOutput::Json(_) => false,
        },
    }
}

/// The contract of an output producer: what it renders for a tally, and the
/// name of its format.
pub trait OutputProducer {
    /// Whether `r` is a rendering this producer may yield for `t`.
    spec fn produces(&self, t: Tally, r: RenderedOutput) -> bool;

    /// The name of the format this producer yields.
    spec fn format_name_chars(&self) -> Seq<char>;

    /// Renders the finished tally.
    fn produce(&self, t: &Tally) -> (r: RenderedOutput)
        requires
            t.wf(),
        ensures
            self.produces(*t, r),
    ;

    /// Returns the name of the format this producer yields.
    fn format_name(&self) -> (r: String)
        ensures
            r@ == self.format_name_chars(),
    ;
}

/// The producer of the pretty-printed JSON rendering.
pub struct JSONProducer;

impl OutputProducer for JSONProducer {
    open spec fn produces(&self, t: Tally, r: RenderedOutput) -> bool {
        rendering_of(OutputFormat::Json, t, r)
    }

    open spec fn format_name_chars(&self) -> Seq<char> {
        "Json"@
    }

    fn produce(&self, t: &Tally) -> (r: RenderedOutput) {
        RenderedOutput::Json(render_json(t))
    }

    fn format_name(&self) -> (r: String) {
        "Json".to_owned()
    }
}

/// The producer of the two-column table rendering.
pub struct TableProducer;

impl OutputProducer for TableProducer {
    open spec fn produces(&self, t: Tally, r: RenderedOutput) -> bool {
        rendering_of(OutputFormat::Table, t, r)
    }

    open spec fn format_name_chars(&self) -> Seq<char> {
        "Table"@
    }

    fn produce(&self, t: &Tally) -> (r: RenderedOutput) {
        RenderedOutput::Table(render_table_rows(t))
    }

    fn format_name(&self) -> (r: String) {
        "Table".to_owned()
    }
}

/// Renders the finished tally in the configured format.
pub fn produce_output(format: OutputFormat, t: &Tally) -> (r: RenderedOutput)
    requires
        t.wf(),
    ensures
        rendering_of(format, *t, r),
{
    match format {
        OutputFormat::Json => JSONProducer.produce(t),
        OutputFormat::Table => TableProducer.produce(t),
    }
}

/// Rendering is a function of the tally as a mapping alone: two tallies
/// that agree as mappings — the same tally rendered twice, or the same
/// outcomes counted in another arrival order — yield byte-identical JSON.
pub proof fn lemma_json_rendering_idempotent(
    t1: Tally,
    t2: Tally,
    r1: RenderedOutput,
    r2: RenderedOutput,
)
    requires
        rendering_of(OutputFormat::Json, t1, r1),
        rendering_of(OutputFormat::Json, t2, r2),
        t1.as_map() == t2.as_map(),
    ensures
        match (r1, r2) {
            (RenderedOutput::Json(s1), RenderedOutput::Json(s2)) => s1@ == s2@,
            _ => false,
        },
{
}

} // verus!
