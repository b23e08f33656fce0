use vstd::prelude::*;
use crate::catalog::{Track, TRACK_COUNT, track_at};
use crate::config::LevelEntry;
use crate::error::ParseError;
use crate::gag::{GagRef, spec_decode};
use crate::level_key::LevelKey;
use crate::node::Node;

verus! {

/// Number of toon counts (1 to 4) a loadout gives gags for.
pub const MAX_TOONS: u8 = 4;

/// One cell of the table: the gags of one level entry, lure state, toon
/// count and organic state, one list per track in track order.
#[derive(Debug)]
pub struct Cell {
    pub key: LevelKey,
    pub lured: bool,
    pub tracks: Vec<Vec<GagRef>>,
}

/// One body row: a toon count and an organic state, with two cells (not
/// lured, lured) per level entry.
#[derive(Debug)]
pub struct Row {
    pub toon_count: u8,
    pub organic: bool,
    pub cells: Vec<Cell>,
}

/// The whole table: the level entries' keys in column order and the body
/// rows.
#[derive(Debug)]
pub struct Matrix {
    pub keys: Vec<LevelKey>,
    pub rows: Vec<Row>,
}

pub struct CellView {
    pub key: LevelKey,
    pub lured: bool,
    pub tracks: Seq<Seq<GagRef>>,
}

pub struct RowView {
    pub toon_count: u8,
    pub organic: bool,
    pub cells: Seq<CellView>,
}

pub struct MatrixView {
    pub keys: Seq<LevelKey>,
    pub rows: Seq<RowView>,
}

impl View for Cell {
    type V = CellView;

    open spec fn view(&self) -> CellView {
        CellView {
            key: self.key,
            lured: self.lured,
            tracks: self.tracks@.map_values(|v: Vec<GagRef>| v@),
        }
    }
}

impl View for Row {
    type V = RowView;

    open spec fn view(&self) -> RowView {
        RowView {
            toon_count: self.toon_count,
            organic: self.organic,
            cells: self.cells@.map_values(|c: Cell| c@),
        }
    }
}

impl View for Matrix {
    type V = MatrixView;

    open spec fn view(&self) -> MatrixView {
        MatrixView { keys: self.keys@, rows: self.rows@.map_values(|r: Row| r@) }
    }
}

impl CellView {
    /// A gag list for each track, each reference within its catalog.
    pub open spec fn wf(self) -> bool {
        &&& self.tracks.len() == TRACK_COUNT
        &&& forall|t: int, i: int|
            0 <= t < self.tracks.len() && 0 <= i < self.tracks[t].len() ==> (
            #[trigger] self.tracks[t][i]).wf()
    }
}

impl MatrixView {
    /// Every gag reference in the table lies within its track's catalog.
    pub open spec fn wf(self) -> bool {
        forall|r: int, c: int|
            0 <= r < self.rows.len() && 0 <= c < self.rows[r].cells.len() ==> (
            #[trigger] self.rows[r].cells[c]).wf()
    }
}

/// A gag list element decoded: an integer within the catalog.
pub open spec fn item_ref(item: Node, t: Track) -> Result<GagRef, ParseError> {
    match item {
        Node::Integer(v) => match spec_decode(v as int) {
            Some(g) => Ok(g),
            None => Err(ParseError::SlotOutOfRange { track: t.spec_key(), value: v }),
        },
        _ => Err(ParseError::WrongType { got: item.kind_name(), expected: "integer" }),
    }
}

/// A gag list decoded in order, or the error of its first bad element.
pub open spec fn items_refs(items: Seq<Node>, t: Track) -> Result<Seq<GagRef>, ParseError>
    decreases items.len(),
{
    if items.len() == 0 {
        Ok(Seq::empty())
    } else {
        match items_refs(items.drop_last(), t) {
            Err(e) => Err(e),
            Ok(p) => match item_ref(items.last(), t) {
                Err(e) => Err(e),
                Ok(g) => Ok(p.push(g)),
            },
        }
    }
}

/// The gags of track `t` for the toon count with zero-based index `ix`.
pub open spec fn track_refs(loadout: Node, t: Track, ix: int) -> Result<Seq<GagRef>, ParseError> {
    match loadout.spec_get(t.spec_key()@) {
        None => Err(ParseError::MissingKey { key: t.spec_key() }),
        Some(tn) => match tn.spec_at(ix) {
            None => Err(ParseError::IxOutOfBounds { ix: ix as usize }),
            Some(a) => match a {
                Node::Array(items) => items_refs(items@, t),
                _ => Err(ParseError::WrongType { got: a.kind_name(), expected: "array" }),
            },
        },
    }
}

/// The gag lists of the first `n` tracks, in track order.
pub open spec fn cell_tracks(loadout: Node, ix: int, n: int) -> Result<Seq<Seq<GagRef>>, ParseError>
    decreases n,
{
    if n <= 0 {
        Ok(Seq::empty())
    } else {
        match cell_tracks(loadout, ix, n - 1) {
            Err(e) => Err(e),
            Ok(p) => match track_refs(loadout, track_at(n - 1), ix) {
                Err(e) => Err(e),
                Ok(s) => Ok(p.push(s)),
            },
        }
    }
}

/// The first `n` cells of the row for `toon_count` and `organic`: cell
/// `c` is level entry `c / 2`, lured when `c` is odd.
pub open spec fn row_cells(es: Seq<LevelEntry>, toon_count: int, organic: bool, n: int) -> Result<
    Seq<CellView>,
    ParseError,
>
    decreases n,
{
    if n <= 0 {
        Ok(Seq::empty())
    } else {
        match row_cells(es, toon_count, organic, n - 1) {
            Err(e) => Err(e),
            Ok(p) => {
                let e = es[(n - 1) / 2];
                let lured = (n - 1) % 2 == 1;
                match cell_tracks(e.spec_loadout(lured, organic), toon_count - 1, TRACK_COUNT as int) {
                    Err(err) => Err(err),
                    Ok(tracks) => Ok(p.push(CellView { key: e.key, lured, tracks })),
                }
            },
        }
    }
}

/// The first `n` body rows: row `r` has `r / 2 + 1` toons, organic when
/// `r` is odd.
pub open spec fn matrix_rows(es: Seq<LevelEntry>, n: int) -> Result<Seq<RowView>, ParseError>
    decreases n,
{
    if n <= 0 {
        Ok(Seq::empty())
    } else {
        match matrix_rows(es, n - 1) {
            Err(e) => Err(e),
            Ok(p) => {
                let toon_count = (n - 1) / 2 + 1;
                let organic = (n - 1) % 2 == 1;
                match row_cells(es, toon_count, organic, 2 * es.len() as int) {
                    Err(err) => Err(err),
                    Ok(cells) => Ok(p.push(RowView { toon_count: toon_count as u8, organic, cells })),
                }
            },
        }
    }
}

/// The table of a listing of level entries, or the first error met while
/// walking toon counts, organic states, entries, lure states and tracks in
/// that nesting.
pub open spec fn spec_build(es: Seq<LevelEntry>) -> Result<MatrixView, ParseError> {
    match matrix_rows(es, 2 * MAX_TOONS as int) {
        Err(e) => Err(e),
        Ok(rows) => Ok(MatrixView { keys: es.map_values(|e: LevelEntry| e.key), rows }),
    }
}

fn decode_items(items: &Vec<Node>, t: Track) -> (r: Result<Vec<GagRef>, ParseError>)
    ensures
        r is Ok <==> items_refs(items@, t) is Ok,
        r is Ok ==> r->Ok_0@ == items_refs(items@, t)->Ok_0,
        r is Ok ==> forall|i: int| 0 <= i < r->Ok_0@.len() ==> (#[trigger] r->Ok_0@[i]).wf(),
        r is Err ==> r->Err_0 == items_refs(items@, t)->Err_0,
{
    let mut out: Vec<GagRef> = Vec::new();
    let mut i: usize = 0;
    while i < items.len()
        invariant
            i <= items@.len(),
            items_refs(items@.take(i as int), t) == Ok::<Seq<GagRef>, ParseError>(out@),
            forall|j: int| 0 <= j < out@.len() ==> (#[trigger] out@[j]).wf(),
        decreases items@.len() - i,
    {
        assert(items@.take(i + 1).drop_last() =~= items@.take(i as int));
        assert(items@.take(i + 1).last() == items@[i as int]);
        let g = match &items[i] {
            Node::Integer(v) => match GagRef::decode(*v) {
                Some(g) => g,
                None => {
                    proof {
                        lemma_items_refs_err_prefix(items@, t, i + 1);
                    }
                    return Err(ParseError::SlotOutOfRange { track: t.key(), value: *v });
                },
            },
            other => {
                proof {
                    lemma_items_refs_err_prefix(items@, t, i + 1);
                }
                return Err(ParseError::WrongType { got: other.type_str(), expected: "integer" });
            },
        };
        out.push(g);
        i = i + 1;
    }
    assert(items@.take(items@.len() as int) =~= items@);
    Ok(out)
}

/// Once a prefix of a gag list fails, the whole list fails the same way.
proof fn lemma_items_refs_err_prefix(items: Seq<Node>, t: Track, n: int)
    requires
        0 <= n <= items.len(),
        items_refs(items.take(n), t) is Err,
    ensures
        items_refs(items, t) == items_refs(items.take(n), t),
    decreases items.len() - n,
{
    if n < items.len() {
        assert(items.take(n + 1).drop_last() =~= items.take(n));
        lemma_items_refs_err_prefix(items, t, n + 1);
    } else {
        assert(items.take(n) =~= items);
    }
}

fn track_cell(loadout: &Node, t: Track, ix: usize) -> (r: Result<Vec<GagRef>, ParseError>)
    ensures
        r is Ok <==> track_refs(*loadout, t, ix as int) is Ok,
        r is Ok ==> r->Ok_0@ == track_refs(*loadout, t, ix as int)->Ok_0,
        r is Ok ==> forall|i: int| 0 <= i < r->Ok_0@.len() ==> (#[trigger] r->Ok_0@[i]).wf(),
        r is Err ==> r->Err_0 == track_refs(*loadout, t, ix as int)->Err_0,
{
    let key = t.key();
    let tn = match loadout.get(key) {
        Some(x) => x,
        None => return Err(ParseError::MissingKey { key }),
    };
    let a = match tn.get_index(ix) {
        Some(x) => x,
        None => return Err(ParseError::IxOutOfBounds { ix }),
    };
    match a {
        Node::Array(items) => decode_items(items, t),
        _ => Err(ParseError::WrongType { got: a.type_str(), expected: "array" }),
    }
}

/// Once the first `n` tracks fail, every longer prefix fails the same way.
proof fn lemma_cell_tracks_err(loadout: Node, ix: int, n: int, m: int)
    requires
        0 <= n <= m,
        cell_tracks(loadout, ix, n) is Err,
    ensures
        cell_tracks(loadout, ix, m) == cell_tracks(loadout, ix, n),
    decreases m - n,
{
    if n < m {
        lemma_cell_tracks_err(loadout, ix, n, m - 1);
    }
}

fn build_cell(loadout: &Node, ix: usize) -> (r: Result<Vec<Vec<GagRef>>, ParseError>)
    ensures
        r is Ok <==> cell_tracks(*loadout, ix as int, TRACK_COUNT as int) is Ok,
        r is Ok ==> r->Ok_0@.map_values(|v: Vec<GagRef>| v@) == cell_tracks(
            *loadout,
            ix as int,
            TRACK_COUNT as int,
        )->Ok_0,
        r is Ok ==> r->Ok_0@.len() == TRACK_COUNT,
        r is Ok ==> forall|t: int, i: int|
            0 <= t < r->Ok_0@.len() && 0 <= i < r->Ok_0@[t]@.len() ==> (
            #[trigger] r->Ok_0@[t]@[i]).wf(),
        r is Err ==> r->Err_0 == cell_tracks(*loadout, ix as int, TRACK_COUNT as int)->Err_0,
{
    let mut out: Vec<Vec<GagRef>> = Vec::new();
    let mut t: usize = 0;
    assert(out@.map_values(|v: Vec<GagRef>| v@) =~= Seq::<Seq<GagRef>>::empty());
    while t < TRACK_COUNT
        invariant
            t <= TRACK_COUNT,
            out@.len() == t,
            cell_tracks(*loadout, ix as int, t as int) == Ok::<Seq<Seq<GagRef>>, ParseError>(
                out@.map_values(|v: Vec<GagRef>| v@),
            ),
            forall|u: int, i: int|
                0 <= u < out@.len() && 0 <= i < out@[u]@.len() ==> (#[trigger] out@[u]@[i]).wf(),
        decreases TRACK_COUNT - t,
    {
        let track = Track::from_index(t);
        match track_cell(loadout, track, ix) {
            Ok(v) => {
                let ghost prev = out@;
                out.push(v);
                assert(out@.map_values(|v: Vec<GagRef>| v@) =~= prev.map_values(
                    |v: Vec<GagRef>| v@,
                ).push(v@));
            },
            Err(e) => {
                proof {
                    lemma_cell_tracks_err(*loadout, ix as int, t + 1, TRACK_COUNT as int);
                }
                return Err(e);
            },
        }
        t = t + 1;
    }
    Ok(out)
}

/// Once the first `n` cells of a row fail, every longer prefix fails the
/// same way.
proof fn lemma_row_cells_err(es: Seq<LevelEntry>, toon_count: int, organic: bool, n: int, m: int)
    requires
        0 <= n <= m,
        row_cells(es, toon_count, organic, n) is Err,
    ensures
        row_cells(es, toon_count, organic, m) == row_cells(es, toon_count, organic, n),
    decreases m - n,
{
    if n < m {
        lemma_row_cells_err(es, toon_count, organic, n, m - 1);
    }
}

/// Once the first `n` rows fail, every longer prefix fails the same way.
proof fn lemma_matrix_rows_err(es: Seq<LevelEntry>, n: int, m: int)
    requires
        0 <= n <= m,
        matrix_rows(es, n) is Err,
    ensures
        matrix_rows(es, m) == matrix_rows(es, n),
    decreases m - n,
{
    if n < m {
        lemma_matrix_rows_err(es, n, m - 1);
    }
}

fn build_one(e: &LevelEntry, lured: bool, toon_count: u8, organic: bool) -> (r: Result<Cell, ParseError>)
    requires
        1 <= toon_count <= MAX_TOONS,
    ensures
        r is Ok <==> cell_tracks(e.spec_loadout(lured, organic), toon_count - 1, TRACK_COUNT as int) is Ok,
        r is Ok ==> r->Ok_0@ == (CellView {
            key: e.key,
            lured,
            tracks: cell_tracks(e.spec_loadout(lured, organic), toon_count - 1, TRACK_COUNT as int)->Ok_0,
        }),
        r is Ok ==> r->Ok_0@.wf(),
        r is Err ==> r->Err_0 == cell_tracks(
            e.spec_loadout(lured, organic),
            toon_count - 1,
            TRACK_COUNT as int,
        )->Err_0,
{
    match build_cell(e.loadout(lured, organic), (toon_count - 1) as usize) {
        Ok(tracks) => Ok(Cell { key: e.key, lured, tracks }),
        Err(err) => Err(err),
    }
}

fn build_row(es: &Vec<LevelEntry>, toon_count: u8, organic: bool) -> (r: Result<Vec<Cell>, ParseError>)
    requires
        1 <= toon_count <= MAX_TOONS,
    ensures
        r is Ok <==> row_cells(es@, toon_count as int, organic, 2 * es@.len() as int) is Ok,
        r is Ok ==> r->Ok_0@.map_values(|c: Cell| c@) == row_cells(
            es@,
            toon_count as int,
            organic,
            2 * es@.len() as int,
        )->Ok_0,
        r is Ok ==> forall|c: int| 0 <= c < r->Ok_0@.len() ==> (#[trigger] r->Ok_0@[c])@.wf(),
        r is Err ==> r->Err_0 == row_cells(es@, toon_count as int, organic, 2 * es@.len() as int)->Err_0,
{
    let ghost n = 2 * es@.len() as int;
    let mut out: Vec<Cell> = Vec::new();
    let mut e: usize = 0;
    assert(out@.map_values(|c: Cell| c@) =~= Seq::<CellView>::empty());
    while e < es.len()
        invariant
            n == 2 * es@.len(),
            e <= es@.len(),
            1 <= toon_count <= MAX_TOONS,
            row_cells(es@, toon_count as int, organic, 2 * e as int) == Ok::<Seq<CellView>, ParseError>(
                out@.map_values(|c: Cell| c@),
            ),
            forall|d: int| 0 <= d < out@.len() ==> (#[trigger] out@[d])@.wf(),
        decreases es@.len() - e,
    {
        let entry = &es[e];
        assert((2 * e as int) / 2 == e as int && (2 * e as int) % 2 == 0);
        assert((2 * e as int + 1) / 2 == e as int && (2 * e as int + 1) % 2 == 1);
        match build_one(entry, false, toon_count, organic) {
            Ok(cell) => {
                let ghost prev = out@;
                out.push(cell);
                assert(out@.map_values(|c: Cell| c@) =~= prev.map_values(|c: Cell| c@).push(cell@));
            },
            Err(err) => {
                proof {
                    lemma_row_cells_err(es@, toon_count as int, organic, 2 * e + 1, n);
                }
                return Err(err);
            },
        }
        match build_one(entry, true, toon_count, organic) {
            Ok(cell) => {
                let ghost prev = out@;
                out.push(cell);
                assert(out@.map_values(|c: Cell| c@) =~= prev.map_values(|c: Cell| c@).push(cell@));
            },
            Err(err) => {
                proof {
                    lemma_row_cells_err(es@, toon_count as int, organic, 2 * e + 2, n);
                }
                return Err(err);
            },
        }
        e = e + 1;
    }
    Ok(out)
}

/// Builds the table of a listing of level entries: eight body rows (toon
/// counts 1 to 4, each without and then with organic gags), each with a
/// cell per entry and lure state, each cell with the entry's gag list per
/// track in input order.
pub fn build_matrix(es: &Vec<LevelEntry>) -> (r: Result<Matrix, ParseError>)
    ensures
        r is Ok <==> spec_build(es@) is Ok,
        r is Ok ==> r->Ok_0@ == spec_build(es@)->Ok_0,
        r is Ok ==> r->Ok_0@.wf(),
        r is Err ==> r->Err_0 == spec_build(es@)->Err_0,
{
    let mut keys: Vec<LevelKey> = Vec::new();
    let mut i: usize = 0;
    while i < es.len()
        invariant
            i <= es@.len(),
            keys@ == es@.take(i as int).map_values(|e: LevelEntry| e.key),
        decreases es@.len() - i,
    {
        keys.push(es[i].key);
        i = i + 1;
        assert(keys@ =~= es@.take(i as int).map_values(|e: LevelEntry| e.key));
    }
    assert(es@.take(es@.len() as int) =~= es@);
    let mut rows: Vec<Row> = Vec::new();
    let mut r: usize = 0;
    let n: usize = 2 * MAX_TOONS as usize;
    assert(rows@.map_values(|r: Row| r@) =~= Seq::<RowView>::empty());
    while r < n
        invariant
            n == 2 * MAX_TOONS,
            r <= n,
            matrix_rows(es@, r as int) == Ok::<Seq<RowView>, ParseError>(
                rows@.map_values(|r: Row| r@),
            ),
            forall|a: int, c: int|
                0 <= a < rows@.len() && 0 <= c < rows@[a]@.cells.len() ==> (
                #[trigger] rows@[a]@.cells[c]).wf(),
        decreases n - r,
    {
        let toon_count: u8 = (r / 2 + 1) as u8;
        let organic = r % 2 == 1;
        match build_row(es, toon_count, organic) {
            Ok(cells) => {
                let ghost prev = rows@;
                let row = Row { toon_count, organic, cells };
                rows.push(row);
                assert(rows@.map_values(|r: Row| r@) =~= prev.map_values(|r: Row| r@).push(row@));
                assert forall|a: int, c: int|
                    0 <= a < rows@.len() && 0 <= c < rows@[a]@.cells.len() implies (
                    #[trigger] rows@[a]@.cells[c]).wf() by {
                    if a == prev.len() {
                        assert(rows@[a]@.cells[c] == row.cells@[c]@);
                    }
                }
            },
            Err(err) => {
                proof {
                    lemma_matrix_rows_err(es@, r + 1, n as int);
                }
                return Err(err);
            },
        }
        r = r + 1;
    }
    let m = Matrix { keys, rows };
    assert(m@.rows =~= rows@.map_values(|r: Row| r@));
    Ok(m)
}

proof fn lemma_cell_tracks_len(loadout: Node, ix: int, n: int)
    requires
        0 <= n,
        cell_tracks(loadout, ix, n) is Ok,
    ensures
        cell_tracks(loadout, ix, n)->Ok_0.len() == n,
    decreases n,
{
    if n > 0 {
        lemma_cell_tracks_len(loadout, ix, n - 1);
    }
}

proof fn lemma_row_cells_shape(es: Seq<LevelEntry>, toon_count: int, organic: bool, n: int)
    requires
        0 <= n <= 2 * es.len(),
        row_cells(es, toon_count, organic, n) is Ok,
    ensures
        ({
            let cells = row_cells(es, toon_count, organic, n)->Ok_0;
            &&& cells.len() == n
            &&& forall|c: int|
                0 <= c < n ==> {
                    &&& (#[trigger] cells[c]).key == es[c / 2].key
                    &&& cells[c].lured == (c % 2 == 1)
                    &&& cells[c].tracks.len() == TRACK_COUNT
                }
        }),
    decreases n,
{
    if n > 0 {
        lemma_row_cells_shape(es, toon_count, organic, n - 1);
        let e = es[(n - 1) / 2];
        lemma_cell_tracks_len(
            e.spec_loadout((n - 1) % 2 == 1, organic),
            toon_count - 1,
            TRACK_COUNT as int,
        );
    }
}

proof fn lemma_matrix_rows_shape(es: Seq<LevelEntry>, n: int)
    requires
        0 <= n <= 2 * MAX_TOONS,
        matrix_rows(es, n) is Ok,
    ensures
        ({
            let rows = matrix_rows(es, n)->Ok_0;
            &&& rows.len() == n
            &&& forall|r: int|
                0 <= r < n ==> {
                    &&& (#[trigger] rows[r]).toon_count == r / 2 + 1
                    &&& rows[r].organic == (r % 2 == 1)
                    &&& rows[r].cells.len() == 2 * es.len()
                    &&& forall|c: int|
                        0 <= c < 2 * es.len() ==> {
                            &&& (#[trigger] rows[r].cells[c]).key == es[c / 2].key
                            &&& rows[r].cells[c].lured == (c % 2 == 1)
                            &&& rows[r].cells[c].tracks.len() == TRACK_COUNT
                        }
                }
        }),
    decreases n,
{
    if n > 0 {
        lemma_matrix_rows_shape(es, n - 1);
        lemma_row_cells_shape(es, (n - 1) / 2 + 1, (n - 1) % 2 == 1, 2 * es.len() as int);
    }
}

/// The shape of every table: one key per level entry in listing order,
/// and eight body rows, toon counts 1 to 4 each without and then with
/// organic gags; each row has two cells per entry (not lured, then
/// lured), and each cell one gag list per track.
pub proof fn lemma_table_shape(es: Seq<LevelEntry>)
    requires
        spec_build(es) is Ok,
    ensures
        ({
            let m = spec_build(es)->Ok_0;
            &&& m.keys.len() == es.len()
            &&& forall|i: int| 0 <= i < es.len() ==> #[trigger] m.keys[i] == es[i].key
            &&& m.rows.len() == 2 * MAX_TOONS
            &&& forall|r: int|
                0 <= r < m.rows.len() ==> {
                    &&& (#[trigger] m.rows[r]).toon_count == r / 2 + 1
                    &&& m.rows[r].organic == (r % 2 == 1)
                    &&& m.rows[r].cells.len() == 2 * es.len()
                    &&& forall|c: int|
                        0 <= c < 2 * es.len() ==> {
                            &&& (#[trigger] m.rows[r].cells[c]).key == es[c / 2].key
                            &&& m.rows[r].cells[c].lured == (c % 2 == 1)
                            &&& m.rows[r].cells[c].tracks.len() == TRACK_COUNT
                        }
                }
        }),
{
    lemma_matrix_rows_shape(es, 2 * MAX_TOONS as int);
}

} // verus!
