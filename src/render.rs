use vstd::prelude::*;
use crate::catalog::{Track, TRACK_COUNT, track_at, slot_key, slot_label, slot_key_of, slot_label_of};
use crate::gag::{GagRef, spec_decode};
use crate::level_key::LevelKey;
use crate::matrix::{Cell, CellView, Matrix, MatrixView, Row, RowView};
use crate::text::{dec_text, push_decimal};

verus! {

/// The document's head and filter controls, up to the first header cell.
pub const HTML_HEAD: &'static str = r#"<!DOCTYPE html>
<html>
  <head>
    <meta charset="UTF-8">
    <meta name="viewport" content="width=device-width,initial-scale=1">
    <title>Gag combos</title>
    <link rel="stylesheet" href="css/style.css" type="text/css" />
    <script type="text/javascript" src="js/main.js" defer></script>
  </head>
  <body>
    <div id="controls-container">
      <div id="cog-level-range-select" class="select">
        <label>
          Min cog level
          <input id="level-range-low" type="number" min="1" max="12" value="1">
        </label>
        <label>
          Max cog level
          <input id="level-range-high" type="number" min="1" max="12" value="12">
        </label>
      </div>
      <div id="lured-select" class="select">
        <label>
          Lured &amp; unlured
          <input id="lured-both" type="radio" name="lured-radio" value="on">
        </label>
        <label>
          Lured only
          <input id="lured-yes" type="radio" name="lured-radio">
        </label>
        <label>
          Unlured only
          <input id="lured-no" type="radio" name="lured-radio">
        </label>
      </div>
      <div id="v2-select" class="select">
        <label>
          v2.0 &amp; non-v2.0
          <input id="v2-both" type="radio" name="v2-radio" value="on">
        </label>
        <label>
          v2.0 only
          <input id="v2-yes" type="radio" name="v2-radio">
        </label>
        <label>
          Non-v2.0 only
          <input id="v2-no" type="radio" name="v2-radio">
        </label>
      </div>
      <div id="toons-range-select" class="select">
        <label>
          Min number of toons
          <input id="toons-low" type="number" min="1" max="4" value="1">
        </label>
        <label>
          Max number of toons
          <input id="toons-high" type="number" min="1" max="4" value="4">
        </label>
      </div>
      <div id="org-select" class="select">
        <label>
          Organic &amp; non-organic
          <input id="org-both" type="radio" name="org-radio" value="on">
        </label>
        <label>
          Organic only
          <input id="org-yes" type="radio" name="org-radio">
        </label>
        <label>
          Non-organic only
          <input id="org-no" type="radio" name="org-radio">
        </label>
      </div>
    </div>

    <table id="main-table">
      <colgroup>
        <col span="1" style="background-color: #cecece;">
      </colgroup>
      <thead>
      <tr>
"#;

/// Between the header row and the footer row.
pub const HEAD_TO_FOOT: &'static str = "      </tr>\n      </thead>\n      <tfoot>\n      <tr>\n";

/// Between the footer row and the body rows.
pub const FOOT_TO_BODY: &'static str = "      </tr>\n      </tfoot>\n      <tbody>\n";

/// The end of the document.
pub const HTML_TAIL: &'static str = "      </tbody>\n    </table>\n  </body>\n</html>\n";

/// `yes` when `b` holds, else `no`.
pub open spec fn pick(b: bool, yes: Seq<char>, no: Seq<char>) -> Seq<char> {
    if b { yes } else { no }
}

/// The CSS classes of a level entry's header cells.
pub open spec fn key_class(k: LevelKey) -> Seq<char> {
    "level-"@ + dec_text(k.level as nat) + " "@ + pick(k.v2, ""@, "not-"@) + "v2"@
}

/// The level as a header shows it: `12`, or `12 v2.0`.
pub open spec fn key_label(k: LevelKey) -> Seq<char> {
    dec_text(k.level as nat) + pick(k.v2, " v2.0"@, ""@)
}

/// The two header cells of a level entry: not lured, then lured.
pub open spec fn key_columns(k: LevelKey) -> Seq<char> {
    "        <th class=\""@ + key_class(k) + " not-lured\">Level "@ + key_label(k)
        + " (not lured)</th>\n        <th class=\""@ + key_class(k) + " lured\">Level "@
        + key_label(k) + " (lured)</th>\n"@
}

/// The header cells of the first `n` keys.
pub open spec fn columns_text(keys: Seq<LevelKey>, n: int) -> Seq<char>
    decreases n,
{
    if n <= 0 {
        Seq::empty()
    } else {
        columns_text(keys, n - 1) + key_columns(keys[n - 1])
    }
}

/// The header row's cells, which the footer row repeats.
pub open spec fn head_foot_text(keys: Seq<LevelKey>) -> Seq<char> {
    "        <th class=\"empty-cell\"></th>\n"@ + columns_text(keys, keys.len() as int)
}

/// The image cell of one gag reference.
pub open spec fn image_text(t: Track, g: GagRef) -> Seq<char> {
    "<td class=\"img-td\"><img src=\"img/"@ + slot_key(t, g.slot as int)@ + pick(
        g.organic,
        "_org"@,
        ""@,
    ) + ".png\" alt=\""@ + pick(g.organic, "Organic "@, ""@) + slot_label(t, g.slot as int)@
        + "\" title=\""@ + pick(g.organic, "Organic "@, ""@) + slot_label(t, g.slot as int)@
        + pick(g.organic, "\" class=\"org"@, ""@) + "\"></td>"@
}

/// The image cells of the first `n` references of a list.
pub open spec fn images_text(t: Track, gs: Seq<GagRef>, n: int) -> Seq<char>
    decreases n,
{
    if n <= 0 {
        Seq::empty()
    } else {
        images_text(t, gs, n - 1) + image_text(t, gs[n - 1])
    }
}

/// The row of one track inside a cell.
pub open spec fn track_text(t: Track, gs: Seq<GagRef>) -> Seq<char> {
    "          <tr class=\""@ + t.spec_key()@ + "\">"@ + images_text(t, gs, gs.len() as int)
        + "</tr>\n"@
}

/// The rows of the first `n` tracks of a cell.
pub open spec fn tracks_text(tracks: Seq<Seq<GagRef>>, n: int) -> Seq<char>
    decreases n,
{
    if n <= 0 {
        Seq::empty()
    } else {
        tracks_text(tracks, n - 1) + track_text(track_at(n - 1), tracks[n - 1])
    }
}

/// A body cell: its classes name the level, the lure state and the v2
/// state; it holds a table with a row per track.
pub open spec fn cell_text(c: CellView) -> Seq<char> {
    "        <td class=\""@ + "level-"@ + dec_text(c.key.level as nat) + " "@ + pick(
        c.lured,
        ""@,
        "not-"@,
    ) + "lured "@ + pick(c.key.v2, ""@, "not-"@) + "v2"@ + "\"><table class=\"gag-row\">\n"@
        + tracks_text(c.tracks, c.tracks.len() as int) + "        </table></td>\n"@
}

/// The first `n` cells of a row.
pub open spec fn cells_text(cells: Seq<CellView>, n: int) -> Seq<char>
    decreases n,
{
    if n <= 0 {
        Seq::empty()
    } else {
        cells_text(cells, n - 1) + cell_text(cells[n - 1])
    }
}

/// A row's label: `1 toon (no organic)`, `3 toons (with organic)`.
pub open spec fn row_label(toon_count: nat, organic: bool) -> Seq<char> {
    dec_text(toon_count) + " toon"@ + pick(toon_count == 1, ""@, "s"@) + " ("@ + pick(
        organic,
        "with"@,
        "no"@,
    ) + " organic)"@
}

/// A body row: its class names the toon count and the organic state.
pub open spec fn row_text(r: RowView) -> Seq<char> {
    row_head_text(r.toon_count as nat, r.organic) + cells_text(r.cells, r.cells.len() as int)
        + "      </tr>\n"@
}

/// The first `n` body rows.
pub open spec fn rows_text(rows: Seq<RowView>, n: int) -> Seq<char>
    decreases n,
{
    if n <= 0 {
        Seq::empty()
    } else {
        rows_text(rows, n - 1) + row_text(rows[n - 1])
    }
}

/// The whole document: head and controls, the header row, the footer row
/// (the same cells again), the body rows and the tail.
pub open spec fn page_text(m: MatrixView) -> Seq<char> {
    HTML_HEAD@ + head_foot_text(m.keys) + HEAD_TO_FOOT@ + head_foot_text(m.keys)
        + FOOT_TO_BODY@ + rows_text(m.rows, m.rows.len() as int) + HTML_TAIL@
}

/// The reference 0 renders as the plain pass image on every track: no
/// organic file name, label or class.
pub proof fn lemma_pass_image(t: Track)
    ensures
        spec_decode(0) is Some,
        image_text(t, spec_decode(0)->0)
            == "<td class=\"img-td\"><img src=\"img/pass.png\" alt=\"Pass\" title=\"Pass\"></td>"@,
{
    reveal_strlit("");
    reveal_strlit("pass");
    reveal_strlit("Pass");
    reveal_strlit("<td class=\"img-td\"><img src=\"img/");
    reveal_strlit(".png\" alt=\"");
    reveal_strlit("\" title=\"");
    reveal_strlit("\"></td>");
    reveal_strlit("<td class=\"img-td\"><img src=\"img/pass.png\" alt=\"Pass\" title=\"Pass\"></td>");
    assert(image_text(t, spec_decode(0)->0)
        =~= "<td class=\"img-td\"><img src=\"img/pass.png\" alt=\"Pass\" title=\"Pass\"></td>"@);
}

fn push_pick(out: &mut String, b: bool, yes: &str, no: &str)
    ensures
        final(out)@ == old(out)@ + pick(b, yes@, no@),
{
    if b {
        out.append(yes);
    } else {
        out.append(no);
    }
}

fn push_image(out: &mut String, t: Track, g: GagRef)
    requires
        g.wf(),
    ensures
        final(out)@ == old(out)@ + image_text(t, g),
{
    let ghost start = out@;
    let key = slot_key_of(t, g.slot);
    let label = slot_label_of(t, g.slot);
    out.append("<td class=\"img-td\"><img src=\"img/");
    out.append(key);
    push_pick(out, g.organic, "_org", "");
    out.append(".png\" alt=\"");
    push_pick(out, g.organic, "Organic ", "");
    out.append(label);
    out.append("\" title=\"");
    push_pick(out, g.organic, "Organic ", "");
    out.append(label);
    push_pick(out, g.organic, "\" class=\"org", "");
    out.append("\"></td>");
    assert(out@ =~= start + image_text(t, g));
}

fn push_track(out: &mut String, t: Track, gs: &Vec<GagRef>)
    requires
        forall|i: int| 0 <= i < gs@.len() ==> (#[trigger] gs@[i]).wf(),
    ensures
        final(out)@ == old(out)@ + track_text(t, gs@),
{
    let ghost start = out@;
    out.append("          <tr class=\"");
    out.append(t.key());
    out.append("\">");
    let ghost mid = out@;
    let mut i: usize = 0;
    while i < gs.len()
        invariant
            i <= gs@.len(),
            forall|j: int| 0 <= j < gs@.len() ==> (#[trigger] gs@[j]).wf(),
            out@ == mid + images_text(t, gs@, i as int),
        decreases gs@.len() - i,
    {
        push_image(out, t, gs[i]);
        i = i + 1;
        assert(out@ =~= mid + images_text(t, gs@, i as int));
    }
    out.append("</tr>\n");
    assert(out@ =~= start + track_text(t, gs@));
}

fn push_cell(out: &mut String, c: &Cell)
    requires
        c@.wf(),
    ensures
        final(out)@ == old(out)@ + cell_text(c@),
{
    let ghost start = out@;
    out.append("        <td class=\"");
    out.append("level-");
    push_decimal(out, c.key.level as u64);
    out.append(" ");
    push_pick(out, c.lured, "", "not-");
    out.append("lured ");
    push_pick(out, c.key.v2, "", "not-");
    out.append("v2");
    out.append("\"><table class=\"gag-row\">\n");
    let ghost mid = out@;
    let mut t: usize = 0;
    while t < TRACK_COUNT
        invariant
            t <= TRACK_COUNT,
            c@.wf(),
            c.tracks@.len() == TRACK_COUNT,
            out@ == mid + tracks_text(c@.tracks, t as int),
        decreases TRACK_COUNT - t,
    {
        let gs = &c.tracks[t];
        assert(c@.tracks[t as int] == gs@);
        assert forall|i: int| 0 <= i < gs@.len() implies (#[trigger] gs@[i]).wf() by {
            assert(c@.tracks[t as int][i] == gs@[i]);
        }
        push_track(out, Track::from_index(t), gs);
        t = t + 1;
        assert(out@ =~= mid + tracks_text(c@.tracks, t as int));
    }
    out.append("        </table></td>\n");
    assert(out@ =~= start + cell_text(c@));
}

/// The start of a body row: its class and its label cell.
pub open spec fn row_head_text(toon_count: nat, organic: bool) -> Seq<char> {
    "      <tr class=\""@ + dec_text(toon_count) + "-toons "@ + pick(organic, ""@, "not-"@)
        + "org-row"@ + "\">\n        <td class=\"col-header\">"@ + row_label(toon_count, organic)
        + "</td>\n"@
}

fn push_row_head(out: &mut String, toon_count: u8, organic: bool)
    ensures
        final(out)@ == old(out)@ + row_head_text(toon_count as nat, organic),
{
    let ghost start = out@;
    out.append("      <tr class=\"");
    push_decimal(out, toon_count as u64);
    out.append("-toons ");
    push_pick(out, organic, "", "not-");
    out.append("org-row");
    out.append("\">\n        <td class=\"col-header\">");
    push_decimal(out, toon_count as u64);
    out.append(" toon");
    push_pick(out, toon_count == 1, "", "s");
    out.append(" (");
    push_pick(out, organic, "with", "no");
    out.append(" organic)");
    out.append("</td>\n");
    assert(out@ =~= start + row_head_text(toon_count as nat, organic));
}

fn push_row(out: &mut String, r: &Row)
    requires
        forall|c: int| 0 <= c < r@.cells.len() ==> (#[trigger] r@.cells[c]).wf(),
    ensures
        final(out)@ == old(out)@ + row_text(r@),
{
    let ghost start = out@;
    push_row_head(out, r.toon_count, r.organic);
    let ghost mid = out@;
    let mut c: usize = 0;
    while c < r.cells.len()
        invariant
            c <= r.cells@.len(),
            forall|d: int| 0 <= d < r@.cells.len() ==> (#[trigger] r@.cells[d]).wf(),
            out@ == mid + cells_text(r@.cells, c as int),
        decreases r.cells@.len() - c,
    {
        assert(r@.cells[c as int] == r.cells@[c as int]@);
        push_cell(out, &r.cells[c]);
        c = c + 1;
        assert(out@ =~= mid + cells_text(r@.cells, c as int));
    }
    out.append("      </tr>\n");
    assert(out@ =~= start + row_text(r@));
}

fn head_foot(keys: &Vec<LevelKey>) -> (r: String)
    ensures
        r@ == head_foot_text(keys@),
{
    let mut out = String::from_str("        <th class=\"empty-cell\"></th>\n");
    let ghost mid = out@;
    let mut i: usize = 0;
    while i < keys.len()
        invariant
            i <= keys@.len(),
            out@ == mid + columns_text(keys@, i as int),
        decreases keys@.len() - i,
    {
        let k = keys[i];
        let ghost before = out@;
        out.append("        <th class=\"");
        push_class(&mut out, k);
        out.append(" not-lured\">Level ");
        push_label(&mut out, k);
        out.append(" (not lured)</th>\n        <th class=\"");
        push_class(&mut out, k);
        out.append(" lured\">Level ");
        push_label(&mut out, k);
        out.append(" (lured)</th>\n");
        assert(out@ =~= before + key_columns(k));
        i = i + 1;
        assert(out@ =~= mid + columns_text(keys@, i as int));
    }
    out
}

fn push_class(out: &mut String, k: LevelKey)
    ensures
        final(out)@ == old(out)@ + key_class(k),
{
    let ghost start = out@;
    out.append("level-");
    push_decimal(out, k.level as u64);
    out.append(" ");
    push_pick(out, k.v2, "", "not-");
    out.append("v2");
    assert(out@ =~= start + key_class(k));
}

fn push_label(out: &mut String, k: LevelKey)
    ensures
        final(out)@ == old(out)@ + key_label(k),
{
    let ghost start = out@;
    push_decimal(out, k.level as u64);
    push_pick(out, k.v2, " v2.0", "");
    assert(out@ =~= start + key_label(k));
}

/// Renders a table as one HTML document. The header row is computed once
/// and written again, unchanged, as the footer row.
pub fn render(m: &Matrix) -> (r: String)
    requires
        m@.wf(),
    ensures
        r@ == page_text(m@),
{
    let hf = head_foot(&m.keys);
    let mut out = String::from_str(HTML_HEAD);
    out.append(hf.as_str());
    out.append(HEAD_TO_FOOT);
    out.append(hf.as_str());
    out.append(FOOT_TO_BODY);
    let ghost mid = out@;
    let mut i: usize = 0;
    while i < m.rows.len()
        invariant
            i <= m.rows@.len(),
            m@.wf(),
            out@ == mid + rows_text(m@.rows, i as int),
        decreases m.rows@.len() - i,
    {
        let row = &m.rows[i];
        assert(m@.rows[i as int] == row@);
        assert forall|c: int| 0 <= c < row@.cells.len() implies (#[trigger] row@.cells[c]).wf() by {
            assert(m@.rows[i as int].cells[c] == row@.cells[c]);
        }
        push_row(&mut out, row);
        i = i + 1;
        assert(out@ =~= mid + rows_text(m@.rows, i as int));
    }
    out.append(HTML_TAIL);
    assert(out@ =~= page_text(m@));
    out
}

} // verus!
