//! The table processor: pipe-delimited head and body rows, and the
//! alignment row whose markers are validated but deliberately not rendered.
use vstd::prelude::*;
use vstd::string::*;

use crate::parser::{LineType, TableAlign};
use crate::text::{
    char_is, find_char, find_ix, is_ws, lemma_find_ix, lemma_ws_prefix_bounds, occurs_at, skip_ws,
    spec_trim_end, spec_ws_prefix_len, starts_with_at, strings_view, trim_end,
};

verus! {

/// One pipe-terminated cell: the text before the pipe; the pipe and the
/// whitespace after it are consumed.
pub open spec fn spec_table_cell(t: Seq<char>) -> Option<(Seq<char>, Seq<char>)> {
    match find_ix(t, char_is('|')) {
        None => None,
        Some(k) => {
            let after = t.skip(k + 1);
            Some((t.take(k), after.skip(spec_ws_prefix_len(after))))
        },
    }
}

/// Parses one pipe-terminated cell.
pub fn parse_table_cell(line: &str) -> (r: Option<(String, String)>)
    ensures
        match spec_table_cell(line@) {
            Some((cell, rest)) => r matches Some((c, rr)) && c@ == cell && rr@ == rest,
            None => r is None,
        },
{
    let llen = line.unicode_len();
    match find_char(line, '|') {
        None => None,
        Some(k) => {
            proof {
                lemma_find_ix(line@, char_is('|'));
            }
            let cell = line.substring_char(0, k).to_owned();
            let after = line.substring_char(k + 1, llen);
            let w = skip_ws(after, 0);
            let rest = after.substring_char(w, llen - k - 1).to_owned();
            Some((cell, rest))
        },
    }
}

/// The run of cells readable from the front of `t`, with the unconsumed
/// rest.
pub open spec fn spec_cells(t: Seq<char>) -> (Seq<Seq<char>>, Seq<char>)
    decreases t.len(),
    via spec_cells_decreases
{
    match spec_table_cell(t) {
        None => (Seq::empty(), t),
        Some((cell, rest)) => {
            let (cs, fin) = spec_cells(rest);
            (seq![cell] + cs, fin)
        },
    }
}

#[via_fn]
proof fn spec_cells_decreases(t: Seq<char>) {
    lemma_find_ix(t, char_is('|'));
    match find_ix(t, char_is('|')) {
        Some(k) => {
            lemma_ws_prefix_bounds(t.skip(k + 1));
        },
        None => {},
    }
}

/// Reads the run of cells at the front of `line`.
fn parse_cells(line: &str) -> (r: (Vec<String>, String))
    ensures
        ({
            let (cs, fin) = spec_cells(line@);
            strings_view(r.0@) == cs && r.1@ == fin
        }),
    decreases line@.len(),
{
    proof {
        lemma_find_ix(line@, char_is('|'));
        match find_ix(line@, char_is('|')) {
            Some(k) => {
                lemma_ws_prefix_bounds(line@.skip(k + 1));
            },
            None => {},
        }
    }
    match parse_table_cell(line) {
        None => {
            let r: Vec<String> = Vec::new();
            proof {
                assert(strings_view(r@) =~= Seq::<Seq<char>>::empty());
            }
            (r, line.to_owned())
        },
        Some((cell, rest)) => {
            let (mut cs, fin) = parse_cells(rest.as_str());
            let mut out: Vec<String> = Vec::new();
            out.push(cell);
            out.append(&mut cs);
            proof {
                assert(strings_view(out@) =~= seq![out@[0]@] + strings_view(out@.skip(1)));
            }
            (out, fin)
        },
    }
}

/// A table row: a pipe, at least one whitespace character, then at least
/// one cell.
pub open spec fn spec_table_line(t: Seq<char>) -> Option<(Seq<Seq<char>>, Seq<char>)> {
    if t.len() >= 1 && t[0] == '|' && spec_ws_prefix_len(t.skip(1)) >= 1 {
        let h = t.skip(1);
        let (cs, fin) = spec_cells(h.skip(spec_ws_prefix_len(h)));
        if cs.len() >= 1 {
            Some((cs, fin))
        } else {
            None
        }
    } else {
        None
    }
}

/// Parses a table row into its trimmed-right-of-pipe cells.
pub fn parse_table_line(line: &str) -> (r: Option<(Vec<String>, String)>)
    ensures
        match spec_table_line(line@) {
            Some((cs, fin)) => r matches Some((v, f)) && strings_view(v@) == cs && f@ == fin,
            None => r is None,
        },
{
    let llen = line.unicode_len();
    if llen < 1 || line.get_char(0) != '|' {
        return None;
    }
    let h = line.substring_char(1, llen);
    let w = skip_ws(h, 0);
    if w < 1 {
        return None;
    }
    let (cs, fin) = parse_cells(h.substring_char(w, llen - 1));
    if cs.len() >= 1 {
        Some((cs, fin))
    } else {
        None
    }
}

/// One alignment marker cell: centre `:---:`, left `:---`, or right `---:`
/// at the front of the cell text.
pub open spec fn spec_alignment_of(cell: Seq<char>) -> Option<TableAlign> {
    if cell.len() >= ":---:"@.len() && cell.take(":---:"@.len() as int) == ":---:"@ {
        Some(TableAlign::Centre)
    } else if cell.len() >= ":---"@.len() && cell.take(":---"@.len() as int) == ":---"@ {
        Some(TableAlign::Left)
    } else if cell.len() >= "---:"@.len() && cell.take("---:"@.len() as int) == "---:"@ {
        Some(TableAlign::Right)
    } else {
        None
    }
}

fn alignment_of(cell: &str) -> (r: Option<TableAlign>)
    ensures
        r == spec_alignment_of(cell@),
{
    proof {
        assert forall|p: Seq<char>|
            cell@.len() >= p.len() && cell@.take(p.len() as int) == p implies occurs_at(
            cell@,
            p,
            0,
        ) by {
            assert(cell@.subrange(0, p.len() as int) =~= cell@.take(p.len() as int));
        }
        assert forall|p: Seq<char>| occurs_at(cell@, p, 0) implies cell@.len() >= p.len()
            && cell@.take(p.len() as int) == p by {
            assert(cell@.take(p.len() as int) =~= cell@.subrange(0, p.len() as int));
        }
    }
    if starts_with_at(cell, 0, ":---:") {
        Some(TableAlign::Centre)
    } else if starts_with_at(cell, 0, ":---") {
        Some(TableAlign::Left)
    } else if starts_with_at(cell, 0, "---:") {
        Some(TableAlign::Right)
    } else {
        None
    }
}

/// One pipe-terminated alignment cell.
pub open spec fn spec_table_column_alignment(t: Seq<char>) -> Option<(TableAlign, Seq<char>)> {
    match spec_table_cell(t) {
        None => None,
        Some((cell, rest)) => match spec_alignment_of(cell) {
            Some(a) => Some((a, rest)),
            None => None,
        },
    }
}

/// Parses one pipe-terminated alignment cell.
pub fn parse_table_column_alignment(line: &str) -> (r: Option<(TableAlign, String)>)
    ensures
        match spec_table_column_alignment(line@) {
            Some((a, rest)) => r matches Some((ra, rr)) && ra == a && rr@ == rest,
            None => r is None,
        },
{
    match parse_table_cell(line) {
        None => None,
        Some((cell, rest)) => {
            match alignment_of(cell.as_str()) {
                Some(a) => Some((a, rest)),
                None => None,
            }
        },
    }
}

/// The run of alignment cells at the front of `t`.
pub open spec fn spec_alignments(t: Seq<char>) -> (Seq<TableAlign>, Seq<char>)
    decreases t.len(),
    via spec_alignments_decreases
{
    match spec_table_column_alignment(t) {
        None => (Seq::empty(), t),
        Some((a, rest)) => {
            let (aa, fin) = spec_alignments(rest);
            (seq![a] + aa, fin)
        },
    }
}

#[via_fn]
proof fn spec_alignments_decreases(t: Seq<char>) {
    lemma_find_ix(t, char_is('|'));
    match find_ix(t, char_is('|')) {
        Some(k) => {
            lemma_ws_prefix_bounds(t.skip(k + 1));
        },
        None => {},
    }
}

fn parse_alignments(line: &str) -> (r: (Vec<TableAlign>, String))
    ensures
        ({
            let (aa, fin) = spec_alignments(line@);
            r.0@ == aa && r.1@ == fin
        }),
    decreases line@.len(),
{
    proof {
        lemma_find_ix(line@, char_is('|'));
        match find_ix(line@, char_is('|')) {
            Some(k) => {
                lemma_ws_prefix_bounds(line@.skip(k + 1));
            },
            None => {},
        }
    }
    match parse_table_column_alignment(line) {
        None => {
            let v: Vec<TableAlign> = Vec::new();
            proof {
                assert(v@ =~= Seq::<TableAlign>::empty());
            }
            (v, line.to_owned())
        },
        Some((a, rest)) => {
            let (mut aa, fin) = parse_alignments(rest.as_str());
            let mut out: Vec<TableAlign> = Vec::new();
            out.push(a);
            out.append(&mut aa);
            proof {
                let (saa, sfin) = spec_alignments(line@);
                assert(out@ =~= saa);
            }
            (out, fin)
        },
    }
}

/// The alignment row between head and body: a pipe, whitespace, then at
/// least one alignment marker cell.
pub open spec fn spec_table_header_row(t: Seq<char>) -> Option<(Seq<TableAlign>, Seq<char>)> {
    if t.len() >= 1 && t[0] == '|' && spec_ws_prefix_len(t.skip(1)) >= 1 {
        let h = t.skip(1);
        let (aa, fin) = spec_alignments(h.skip(spec_ws_prefix_len(h)));
        if aa.len() >= 1 {
            Some((aa, fin))
        } else {
            None
        }
    } else {
        None
    }
}

/// Parses the alignment row between head and body; the markers are
/// validated and returned, deliberately not rendered.
pub fn parse_table_header_row(line: &str) -> (r: Option<(Vec<TableAlign>, String)>)
    ensures
        match spec_table_header_row(line@) {
            Some((aa, fin)) => r matches Some((v, f)) && v@ == aa && f@ == fin,
            None => r is None,
        },
{
    let llen = line.unicode_len();
    if llen < 1 || line.get_char(0) != '|' {
        return None;
    }
    let h = line.substring_char(1, llen);
    let w = skip_ws(h, 0);
    if w < 1 {
        return None;
    }
    let (aa, fin) = parse_alignments(h.substring_char(w, llen - 1));
    if aa.len() >= 1 {
        Some((aa, fin))
    } else {
        None
    }
}

/// The markup of the body-row cells from index `i` on.
pub open spec fn spec_td_cells(cs: Seq<Seq<char>>, i: int) -> Seq<char>
    decreases cs.len() - i,
{
    if i < 0 || i >= cs.len() {
        Seq::empty()
    } else {
        "\n      <td>"@ + spec_trim_end(cs[i]) + "</td>"@ + spec_td_cells(cs, i + 1)
    }
}

/// The markup of the head-row cells from index `i` on.
pub open spec fn spec_th_cells(cs: Seq<Seq<char>>, i: int) -> Seq<char>
    decreases cs.len() - i,
{
    if i < 0 || i >= cs.len() {
        Seq::empty()
    } else {
        "\n      <th scope=\"col\">"@ + cs[i] + "</th>"@ + spec_th_cells(cs, i + 1)
    }
}

/// The markup of one table body row.
pub open spec fn spec_table_body_row(t: Seq<char>) -> Option<Seq<char>> {
    match spec_table_line(t) {
        None => None,
        Some((cs, fin)) => Some("    <tr>"@ + spec_td_cells(cs, 0) + "\n    </tr>"@),
    }
}

/// Forms one table body row: one trimmed cell per `<td>` element.
pub fn form_table_body_row(line: &str) -> (r: Option<(String, LineType, usize)>)
    ensures
        match spec_table_body_row(line@) {
            Some(markup) => r matches Some((m, t, d)) && m@ == markup && t
                == LineType::HTMLTableBodyOpen && d == 0,
            None => r is None,
        },
{
    match parse_table_line(line) {
        None => None,
        Some((cells, fin)) => {
            let ghost cs = strings_view(cells@);
            let mut m = String::new();
            m.append("    <tr>");
            let n = cells.len();
            let mut i: usize = 0;
            while i < n
                invariant
                    i <= n,
                    n == cells@.len(),
                    cs == strings_view(cells@),
                    m@ == "    <tr>"@ + spec_td_cells(cs, 0).take(
                        spec_td_cells(cs, 0).len() - spec_td_cells(cs, i as int).len(),
                    ),
                    spec_td_cells(cs, i as int).len() <= spec_td_cells(cs, 0).len(),
                    spec_td_cells(cs, 0) == spec_td_cells(cs, 0).take(
                        spec_td_cells(cs, 0).len() - spec_td_cells(cs, i as int).len(),
                    ) + spec_td_cells(cs, i as int),
                decreases n - i,
            {
                m.append("\n      <td>");
                let trimmed = trim_end(cells[i].as_str());
                m.append(trimmed.as_str());
                m.append("</td>");
                proof {
                    lemma_td_suffix(cs, i as int);
                    assert(spec_td_cells(cs, 0).take(
                        spec_td_cells(cs, 0).len() - spec_td_cells(cs, i + 1).len(),
                    ) =~= spec_td_cells(cs, 0).take(
                        spec_td_cells(cs, 0).len() - spec_td_cells(cs, i as int).len(),
                    ) + ("\n      <td>"@ + spec_trim_end(cs[i as int]) + "</td>"@));
                }
                i = i + 1;
            }
            m.append("\n    </tr>");
            proof {
                assert(spec_td_cells(cs, n as int).len() == 0);
                assert(spec_td_cells(cs, 0).take(spec_td_cells(cs, 0).len() as int)
                    =~= spec_td_cells(cs, 0));
            }
            Some((m, LineType::HTMLTableBodyOpen, 0))
        },
    }
}

proof fn lemma_td_suffix(cs: Seq<Seq<char>>, i: int)
    requires
        0 <= i < cs.len(),
    ensures
        spec_td_cells(cs, i) == "\n      <td>"@ + spec_trim_end(cs[i]) + "</td>"@ + spec_td_cells(
            cs,
            i + 1,
        ),
        spec_td_cells(cs, i).len() >= spec_td_cells(cs, i + 1).len(),
{
}

proof fn lemma_th_suffix(cs: Seq<Seq<char>>, i: int)
    requires
        0 <= i < cs.len(),
    ensures
        spec_th_cells(cs, i) == "\n      <th scope=\"col\">"@ + cs[i] + "</th>"@ + spec_th_cells(
            cs,
            i + 1,
        ),
        spec_th_cells(cs, i).len() >= spec_th_cells(cs, i + 1).len(),
{
}

/// The markup of one table head row.
pub open spec fn spec_table_head_row(t: Seq<char>) -> Option<Seq<char>> {
    match spec_table_line(t) {
        None => None,
        Some((cs, fin)) => Some("    <tr>"@ + spec_th_cells(cs, 0) + "\n    </tr>"@),
    }
}

/// Forms one table head row: one cell per `<th>` element.
pub fn form_table_head_row(line: &str) -> (r: Option<(String, LineType, usize)>)
    ensures
        match spec_table_head_row(line@) {
            Some(markup) => r matches Some((m, t, d)) && m@ == markup && t
                == LineType::HTMLTableHeadOpen && d == 0,
            None => r is None,
        },
{
    match parse_table_line(line) {
        None => None,
        Some((cells, fin)) => {
            let ghost cs = strings_view(cells@);
            let mut m = String::new();
            m.append("    <tr>");
            let n = cells.len();
            let mut i: usize = 0;
            while i < n
                invariant
                    i <= n,
                    n == cells@.len(),
                    cs == strings_view(cells@),
                    m@ == "    <tr>"@ + spec_th_cells(cs, 0).take(
                        spec_th_cells(cs, 0).len() - spec_th_cells(cs, i as int).len(),
                    ),
                    spec_th_cells(cs, i as int).len() <= spec_th_cells(cs, 0).len(),
                    spec_th_cells(cs, 0) == spec_th_cells(cs, 0).take(
                        spec_th_cells(cs, 0).len() - spec_th_cells(cs, i as int).len(),
                    ) + spec_th_cells(cs, i as int),
                decreases n - i,
            {
                m.append("\n      <th scope=\"col\">");
                m.append(cells[i].as_str());
                m.append("</th>");
                proof {
                    lemma_th_suffix(cs, i as int);
                    assert(spec_th_cells(cs, 0).take(
                        spec_th_cells(cs, 0).len() - spec_th_cells(cs, i + 1).len(),
                    ) =~= spec_th_cells(cs, 0).take(
                        spec_th_cells(cs, 0).len() - spec_th_cells(cs, i as int).len(),
                    ) + ("\n      <th scope=\"col\">"@ + cs[i as int] + "</th>"@));
                }
                i = i + 1;
            }
            m.append("\n    </tr>");
            proof {
                assert(spec_th_cells(cs, n as int).len() == 0);
                assert(spec_th_cells(cs, 0).take(spec_th_cells(cs, 0).len() as int)
                    =~= spec_th_cells(cs, 0));
            }
            Some((m, LineType::HTMLTableHeadOpen, 0))
        },
    }
}

/// Recognizes the alignment row: closes the head section and opens the
/// body.
pub fn form_table_header_row(line: &str) -> (r: Option<(String, LineType, usize)>)
    ensures
        if spec_table_header_row(line@) is Some {
            r matches Some((m, t, d)) && m@ == "  </thead>\n  <tbody>"@ && t
                == LineType::HTMLTableBodyOpen && d == 0
        } else {
            r is None
        },
{
    match parse_table_header_row(line) {
        None => None,
        Some(_) => Some(("  </thead>\n  <tbody>".to_owned(), LineType::HTMLTableBodyOpen, 0)),
    }
}

/// Continues or closes the table body: a further body row, else the
/// closing markup.
pub fn form_table_body_last_line(line: &str) -> (r: (String, LineType, usize))
    ensures
        match spec_table_body_row(line@) {
            Some(markup) => r.0@ == markup && r.1 == LineType::HTMLTableBodyOpen && r.2 == 0,
            None => r.0@ == "  </tbody>\n</table>"@ && r.1 == LineType::HTMLTableBody && r.2 == 0,
        },
{
    match form_table_body_row(line) {
        Some((m, t, d)) => (m, t, d),
        None => ("  </tbody>\n</table>".to_owned(), LineType::HTMLTableBody, 0),
    }
}

/// Recognizes the first row of a table and opens the table and its head.
pub fn form_table_head_first_line(line: &str) -> (r: Option<(String, LineType, usize)>)
    ensures
        match spec_table_head_row(line@) {
            Some(markup) => r matches Some((m, t, d)) && m@ == "<table>\n  <thead>\n"@ + markup
                && t == LineType::HTMLTableHeadOpen && d == 0,
            None => r is None,
        },
{
    match form_table_head_row(line) {
        None => None,
        Some((row, t, d)) => {
            let mut m = String::new();
            m.append("<table>\n  <thead>\n");
            m.append(row.as_str());
            Some((m, t, d))
        },
    }
}

/// Tries to end the head section with the alignment row, else adds a
/// further head row.
pub fn form_table_head_last_line(line: &str) -> (r: Option<(String, LineType, usize)>)
    ensures
        if spec_table_header_row(line@) is Some {
            r matches Some((m, t, d)) && m@ == "  </thead>\n  <tbody>"@ && t
                == LineType::HTMLTableBodyOpen && d == 0
        } else {
            match spec_table_head_row(line@) {
                Some(markup) => r matches Some((m, t, d)) && m@ == markup && t
                    == LineType::HTMLTableHeadOpen && d == 0,
                None => r is None,
            }
        },
{
    match form_table_header_row(line) {
        Some(x) => Some(x),
        None => form_table_head_row(line),
    }
}

} // verus!
