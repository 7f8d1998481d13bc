//! Framing of a bulk submission: for each document with an identifier, one
//! action line naming the identifier and one body line holding the
//! serialized document, newline-delimited. Documents without an identifier
//! are dropped from the batch before counting.

use vstd::prelude::*;
use vstd::string::StrSliceExecFns;
use vstd::string::StringExecFns;
use crate::models::{BulkIndexAction, BulkIndexMetadata};

verus! {

/// The `\u00..` escape of a control character, with lowercase hex digits.
pub open spec fn control_escape(c: char) -> Seq<char> {
    if c == '\u{0}' {
        "\\u0000"@
    } else if c == '\u{1}' {
        "\\u0001"@
    } else if c == '\u{2}' {
        "\\u0002"@
    } else if c == '\u{3}' {
        "\\u0003"@
    } else if c == '\u{4}' {
        "\\u0004"@
    } else if c == '\u{5}' {
        "\\u0005"@
    } else if c == '\u{6}' {
        "\\u0006"@
    } else if c == '\u{7}' {
        "\\u0007"@
    } else if c == '\u{8}' {
        "\\u0008"@
    } else if c == '\u{9}' {
        "\\u0009"@
    } else if c == '\u{a}' {
        "\\u000a"@
    } else if c == '\u{b}' {
        "\\u000b"@
    } else if c == '\u{c}' {
        "\\u000c"@
    } else if c == '\u{d}' {
        "\\u000d"@
    } else if c == '\u{e}' {
        "\\u000e"@
    } else if c == '\u{f}' {
        "\\u000f"@
    } else if c == '\u{10}' {
        "\\u0010"@
    } else if c == '\u{11}' {
        "\\u0011"@
    } else if c == '\u{12}' {
        "\\u0012"@
    } else if c == '\u{13}' {
        "\\u0013"@
    } else if c == '\u{14}' {
        "\\u0014"@
    } else if c == '\u{15}' {
        "\\u0015"@
    } else if c == '\u{16}' {
        "\\u0016"@
    } else if c == '\u{17}' {
        "\\u0017"@
    } else if c == '\u{18}' {
        "\\u0018"@
    } else if c == '\u{19}' {
        "\\u0019"@
    } else if c == '\u{1a}' {
        "\\u001a"@
    } else if c == '\u{1b}' {
        "\\u001b"@
    } else if c == '\u{1c}' {
        "\\u001c"@
    } else if c == '\u{1d}' {
        "\\u001d"@
    } else if c == '\u{1e}' {
        "\\u001e"@
    } else {
        "\\u001f"@
    }
}

/// How one character of a JSON string is written: quote, backslash and
/// control characters are escaped, everything else stands as itself.
pub open spec fn esc_char(c: char) -> Seq<char> {
    if c == '"' {
        "\\\""@
    } else if c == '\\' {
        "\\\\"@
    } else if c == '\u{8}' {
        "\\b"@
    } else if c == '\t' {
        "\\t"@
    } else if c == '\n' {
        "\\n"@
    } else if c == '\u{c}' {
        "\\f"@
    } else if c == '\r' {
        "\\r"@
    } else if (c as int) < 32 {
        control_escape(c)
    } else {
        seq![c]
    }
}

/// A string's characters written into a JSON document.
pub open spec fn esc_str(s: Seq<char>) -> Seq<char>
    decreases s.len(),
{
    if s.len() == 0 {
        Seq::empty()
    } else {
        esc_str(s.drop_last()) + esc_char(s.last())
    }
}

/// The action line that precedes one document in the bulk body.
pub open spec fn action_line(id: Seq<char>) -> Seq<char> {
    "{\"index\":{\"_id\":\""@ + esc_str(id) + "\"}}"@
}

/// What one entry contributes to the bulk body: its action line and its
/// serialized document, each on a line of its own — or nothing when the
/// document has no identifier.
pub open spec fn entry_lines(e: (Option<String>, String)) -> Seq<char> {
    match e.0 {
        Some(id) => action_line(id@) + "\n"@ + e.1@ + "\n"@,
        None => Seq::empty(),
    }
}

/// The whole bulk request body.
pub open spec fn bulk_body(entries: Seq<(Option<String>, String)>) -> Seq<char>
    decreases entries.len(),
{
    if entries.len() == 0 {
        Seq::empty()
    } else {
        bulk_body(entries.drop_last()) + entry_lines(entries.last())
    }
}

/// How many entries carry an identifier and therefore enter the body.
pub open spec fn valid_count(entries: Seq<(Option<String>, String)>) -> int
    decreases entries.len(),
{
    if entries.len() == 0 {
        0int
    } else {
        valid_count(entries.drop_last()) + if entries.last().0 is Some {
            1int
        } else {
            0int
        }
    }
}

fn control_escape_str(c: char) -> (r: &'static str)
    requires
        (c as int) < 32,
    ensures
        r@ == control_escape(c),
{
    match c {
        '\u{0}' => "\\u0000",
        '\u{1}' => "\\u0001",
        '\u{2}' => "\\u0002",
        '\u{3}' => "\\u0003",
        '\u{4}' => "\\u0004",
        '\u{5}' => "\\u0005",
        '\u{6}' => "\\u0006",
        '\u{7}' => "\\u0007",
        '\u{8}' => "\\u0008",
        '\u{9}' => "\\u0009",
        '\u{a}' => "\\u000a",
        '\u{b}' => "\\u000b",
        '\u{c}' => "\\u000c",
        '\u{d}' => "\\u000d",
        '\u{e}' => "\\u000e",
        '\u{f}' => "\\u000f",
        '\u{10}' => "\\u0010",
        '\u{11}' => "\\u0011",
        '\u{12}' => "\\u0012",
        '\u{13}' => "\\u0013",
        '\u{14}' => "\\u0014",
        '\u{15}' => "\\u0015",
        '\u{16}' => "\\u0016",
        '\u{17}' => "\\u0017",
        '\u{18}' => "\\u0018",
        '\u{19}' => "\\u0019",
        '\u{1a}' => "\\u001a",
        '\u{1b}' => "\\u001b",
        '\u{1c}' => "\\u001c",
        '\u{1d}' => "\\u001d",
        '\u{1e}' => "\\u001e",
        _ => "\\u001f",
    }
}

fn append_escaped(out: &mut String, s: &str)
    ensures
        final(out)@ == old(out)@ + esc_str(s@),
{
    let len = s.unicode_len();
    let mut i: usize = 0;
    while i < len
        invariant
            0 <= i <= len,
            len == s@.len(),
            out@ == old(out)@ + esc_str(s@.subrange(0, i as int)),
        decreases len - i,
    {
        let ghost pre = s@.subrange(0, i as int);
        let ghost cur = s@.subrange(0, i + 1 as int);
        proof {
            assert(cur.drop_last() =~= pre);
            assert(cur.last() == s@[i as int]);
        }
        let c = s.get_char(i);
        if c == '"' {
            out.append("\\\"");
        } else if c == '\\' {
            out.append("\\\\");
        } else if c == '\u{8}' {
            out.append("\\b");
        } else if c == '\t' {
            out.append("\\t");
        } else if c == '\n' {
            out.append("\\n");
        } else if c == '\u{c}' {
            out.append("\\f");
        } else if c == '\r' {
            out.append("\\r");
        } else if (c as u32) < 32 {
            out.append(control_escape_str(c));
        } else {
            out.append(s.substring_char(i, i + 1));
            proof {
                assert(s@.subrange(i as int, i + 1 as int) =~= seq![s@[i as int]]);
            }
        }
        proof {
            assert(out@ =~= old(out)@ + esc_str(cur));
        }
        i = i + 1;
    }
    proof {
        assert(s@.subrange(0, len as int) =~= s@);
    }
}

impl BulkIndexAction {
    /// The action line as one JSON document: the identifier under `_id`,
    /// escaped as the JSON serializer writes it.
    pub fn to_json_line(&self) -> (r: String)
        ensures
            r@ == action_line(self.index.id@),
    {
        let mut line = String::new();
        line.append("{\"index\":{\"_id\":\"");
        append_escaped(&mut line, self.index.id.as_str());
        line.append("\"}}");
        line
    }
}

/// Builds the newline-delimited bulk body for a batch of serialized
/// documents paired with their identifiers. Documents without an identifier
/// are dropped; the returned count says how many entered the body.
pub fn build_bulk_body(entries: &Vec<(Option<String>, String)>) -> (r: (String, usize))
    ensures
        r.0@ == bulk_body(entries@),
        r.1 == valid_count(entries@),
        r.1 <= entries@.len(),
{
    let n = entries.len();
    let mut body = String::new();
    let mut count: usize = 0;
    let mut i: usize = 0;
    while i < n
        invariant
            0 <= i <= n,
            n == entries@.len(),
            body@ == bulk_body(entries@.subrange(0, i as int)),
            count == valid_count(entries@.subrange(0, i as int)),
            count <= i,
        decreases n - i,
    {
        let ghost pre = entries@.subrange(0, i as int);
        let ghost cur = entries@.subrange(0, i + 1 as int);
        proof {
            assert(cur.drop_last() =~= pre);
            assert(cur.last() == entries@[i as int]);
        }
        let e = &entries[i];
        match &e.0 {
            Some(id) => {
                let action = BulkIndexAction { index: BulkIndexMetadata { id: id.clone() } };
                let line = action.to_json_line();
                body.append(line.as_str());
                body.append("\n");
                body.append(e.1.as_str());
                body.append("\n");
                count = count + 1;
            },
            None => {},
        }
        proof {
            assert(body@ =~= bulk_body(cur));
        }
        i = i + 1;
    }
    proof {
        assert(entries@.subrange(0, n as int) =~= entries@);
    }
    (body, count)
}

} // verus!
