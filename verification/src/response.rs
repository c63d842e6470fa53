//! Text that responses put on the wire: server-sent event frames and the
//! `Content-Disposition` of a download.

use vstd::prelude::*;
use vstd::string::*;
use crate::text::{concat_map, lemma_concat_map_step, push_char, split_char, split_on};

verus! {

/// One server-sent event: every line of `s` as a `data:` line, then a blank line.
pub open spec fn spec_sse_event(s: Seq<char>) -> Seq<char> {
    concat_map(split_on(s, '\n'), |line: Seq<char>| "data: "@ + line + "\n"@) + "\n"@
}

/// Frame one stream item as a server-sent event (multi-line values split across
/// `data:` lines).
pub fn sse_event(s: &str) -> (r: String)
    ensures
        r@ == spec_sse_event(s@),
{
    let lines = split_char(s, '\n');
    let ghost ls = split_on(s@, '\n');
    let ghost f = |line: Seq<char>| "data: "@ + line + "\n"@;
    let mut out = String::new();
    let mut i: usize = 0;
    assert(ls.take(0) =~= Seq::<Seq<char>>::empty());
    assert(out@ =~= concat_map(ls.take(0), f));
    while i < lines.len()
        invariant
            ls == split_on(s@, '\n'),
            f == (|line: Seq<char>| "data: "@ + line + "\n"@),
            lines@.len() == ls.len(),
            forall|k: int| 0 <= k < lines@.len() ==> (#[trigger] lines@[k])@ == ls[k],
            i <= lines@.len(),
            out@ == concat_map(ls.take(i as int), f),
        decreases lines@.len() - i,
    {
        let ghost before = out@;
        out.append("data: ");
        out.append(lines[i].as_str());
        out.append("\n");
        proof {
            lemma_concat_map_step(ls, f, i as int);
            assert(out@ =~= before + f(ls[i as int]));
        }
        i = i + 1;
    }
    assert(ls.take(lines@.len() as int) =~= ls);
    out.append("\n");
    out
}

/// Characters that cannot stand in a quoted header parameter.
pub open spec fn unsafe_in_quotes(c: char) -> bool {
    c == '"' || c == '\r' || c == '\n' || c == '\\'
}

/// `attachment; filename="<name>"`, with quotes, backslashes and line breaks
/// of the name replaced by `_`.
pub open spec fn spec_attachment_value(filename: Seq<char>) -> Seq<char> {
    "attachment; filename=\""@ + filename.map_values(|c: char| if unsafe_in_quotes(c) { '_' } else { c }) + "\""@
}

/// The `Content-Disposition` value for downloading as `filename`.
pub fn attachment_value(filename: &str) -> (r: String)
    ensures
        r@ == spec_attachment_value(filename@),
{
    let n = filename.unicode_len();
    let mut out = String::from_str("attachment; filename=\"");
    let ghost head = out@;
    let mut i: usize = 0;
    while i < n
        invariant
            n == filename@.len(),
            i <= n,
            out@ == head + filename@.take(i as int).map_values(
                |c: char| if unsafe_in_quotes(c) { '_' } else { c },
            ),
        decreases n - i,
    {
        let c = filename.get_char(i);
        if c == '"' || c == '\r' || c == '\n' || c == '\\' {
            push_char(&mut out, '_');
        } else {
            push_char(&mut out, c);
        }
        assert(filename@.take(i + 1).map_values(|c: char| if unsafe_in_quotes(c) { '_' } else { c })
            =~= filename@.take(i as int).map_values(|c: char| if unsafe_in_quotes(c) { '_' } else { c }).push(
            if unsafe_in_quotes(c) { '_' } else { c },
        ));
        i = i + 1;
    }
    assert(filename@.take(n as int) =~= filename@);
    out.append("\"");
    out
}

/// Text without a line break is one piece.
proof fn lemma_split_single(s: Seq<char>)
    requires
        !s.contains('\n'),
    ensures
        split_on(s, '\n') == seq![s],
    decreases s.len(),
{
    if s.len() > 0 {
        assert(!s.drop_last().contains('\n')) by {
            if s.drop_last().contains('\n') {
                let k = choose|k: int| 0 <= k < s.drop_last().len() && s.drop_last()[k] == '\n';
                assert(s[k] == '\n');
            }
        }
        lemma_split_single(s.drop_last());
        assert(s.last() != '\n') by {
            assert(s[s.len() - 1] == s.last());
        }
        assert(s.drop_last().push(s.last()) =~= s);
        assert(seq![s.drop_last()].update(0, s) =~= seq![s]);
    } else {
        assert(s =~= Seq::<char>::empty());
    }
}

/// A value without a line break is sent as one `data:` line.
pub proof fn law_sse_single_line(s: Seq<char>)
    requires
        !s.contains('\n'),
    ensures
        spec_sse_event(s) == "data: "@ + s + "\n"@ + "\n"@,
{
    lemma_split_single(s);
    let f = |line: Seq<char>| "data: "@ + line + "\n"@;
    let one = seq![s];
    assert(one.drop_last() =~= Seq::<Seq<char>>::empty());
    assert(concat_map(one, f) == concat_map(one.drop_last(), f) + f(s));
    assert(concat_map(one, f) =~= "data: "@ + s + "\n"@);
}

/// The file name as it stands between the quotes.
pub open spec fn quoted_filename(filename: Seq<char>) -> Seq<char> {
    filename.map_values(|c: char| if unsafe_in_quotes(c) { '_' } else { c })
}

/// The quoted name holds no quote, backslash or line break, so it cannot end
/// the parameter or the header early.
pub proof fn law_attachment_name_is_quoted_safely(filename: Seq<char>)
    ensures
        spec_attachment_value(filename) == "attachment; filename=\""@ + quoted_filename(filename) + "\""@,
        forall|i: int| 0 <= i < quoted_filename(filename).len() ==> !unsafe_in_quotes(
            #[trigger] quoted_filename(filename)[i],
        ),
        quoted_filename(filename).len() == filename.len(),
{
}

} // verus!
