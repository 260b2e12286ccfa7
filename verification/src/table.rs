//! Whole-table decoding: every table is decoded in full, or the read
//! fails; no partial table is ever returned. The stop-time table may be
//! re-read in a lenient mode that repairs short rows (see `read_vec_repaired`).
use vstd::prelude::*;

verus! {

use crate::archive::GtfsError;
use crate::archive::GtfsFile;
use crate::text::spec_rows;
use crate::text::text_rows;

/// One record type of the model: its canonical member name, whether the
/// archive must carry it, and how one row decodes into it.
pub trait GtfsObject: Sized {
    /// The canonical member name of this record type's table.
    spec fn spec_file() -> Seq<char>;

    /// Whether the archive is invalid without this table.
    spec fn spec_required() -> bool;

    /// Whether a row of the table decodes under the given header.
    spec fn row_ok(h: Seq<Seq<char>>, row: Seq<Seq<char>>) -> bool;

    /// How a decoded record relates to its row under the given header.
    spec fn row_matches(h: Seq<Seq<char>>, row: Seq<Seq<char>>, v: Self) -> bool;

    /// The canonical member name, as text.
    fn file_name() -> (s: String)
        ensures
            s@ == Self::spec_file(),
    ;

    /// Decode one row of text fields under the given header.
    fn from_row(header: &Vec<String>, row: &Vec<String>) -> (res: Result<Self, GtfsError>)
        ensures
            res is Ok <==> Self::row_ok(header.deep_view(), row.deep_view()),
            res matches Ok(v) ==> Self::row_matches(header.deep_view(), row.deep_view(), v),
            res matches Err(e) ==> e == GtfsError::Decode,
    ;
}

// ---------------------------------------------------------------------------
// Strict decoding: every data row must carry exactly as many fields as the
// header declares, and every field must decode.
// ---------------------------------------------------------------------------

pub open spec fn table_strict_ok<T: GtfsObject>(rows: Seq<Seq<Seq<char>>>) -> bool {
    rows.len() == 0 || (forall|i: int|
        1 <= i < rows.len() ==> (#[trigger] rows[i]).len() == rows[0].len() && T::row_ok(
            rows[0],
            rows[i],
        ))
}

pub open spec fn table_matches<T: GtfsObject>(rows: Seq<Seq<Seq<char>>>, v: Seq<T>) -> bool {
    &&& v.len() == (if rows.len() == 0 {
        0int
    } else {
        rows.len() - 1
    })
    &&& forall|i: int| 0 <= i < v.len() ==> T::row_matches(rows[0], rows[i + 1], #[trigger] v[i])
}

/// The named table is present and decodes strictly.
pub open spec fn table_decodes<T: GtfsObject>(file: GtfsFile) -> bool {
    &&& file.text_of(T::spec_file()) is Some
    &&& table_strict_ok::<T>(spec_rows(file.text_of(T::spec_file())->0))
}

impl GtfsFile {
    /// Decode the whole of T's table from this session, strictly: absent
    /// member, a row whose field count differs from the header's, or any
    /// field that fails its codec, all fail the read.
    pub fn read_vec<T: GtfsObject>(&self) -> (r: Result<Vec<T>, GtfsError>)
        ensures
            r is Ok <==> table_decodes::<T>(*self),
            r matches Ok(v) ==> table_matches::<T>(
                spec_rows(self.text_of(T::spec_file())->0),
                v.view(),
            ),
            r matches Err(e) ==> (e == GtfsError::MissingFile <==> self.text_of(T::spec_file())
                is None),
            r matches Err(e) ==> e == GtfsError::MissingFile || e == GtfsError::Decode,
    {
        let fname = T::file_name();
        let text = match self.member_text(fname.as_str()) {
            None => {
                return Err(GtfsError::MissingFile);
            },
            Some(t) => t,
        };
        let rows = text_rows(text.as_str());
        let ghost rs = spec_rows(self.text_of(T::spec_file())->0);
        proof {
            assert(rows.deep_view() == rs);
        }
        if rows.len() == 0 {
            let out: Vec<T> = Vec::new();
            return Ok(out);
        }
        let hlen = rows[0].len();
        proof {
            assert(rs[0] == rows@[0].deep_view());
            assert(rs[0].len() == hlen);
        }
        let mut out: Vec<T> = Vec::new();
        let mut i: usize = 1;
        while i < rows.len()
            invariant
                1 <= i <= rows.len(),
                self.text_of(T::spec_file()) is Some,
                rs == spec_rows(self.text_of(T::spec_file())->0),
                rows.deep_view() == rs,
                rs.len() == rows@.len(),
                rs.len() >= 1,
                hlen == rs[0].len(),
                hlen == rows@[0]@.len(),
                forall|j: int|
                    1 <= j < i ==> (#[trigger] rs[j]).len() == rs[0].len() && T::row_ok(
                        rs[0],
                        rs[j],
                    ),
                out@.len() == i - 1,
                forall|j: int|
                    0 <= j < out@.len() ==> T::row_matches(rs[0], rs[j + 1], #[trigger] out@[j]),
            decreases rows@.len() - i,
        {
            proof {
                assert(rs[i as int] == rows@[i as int].deep_view());
                assert(rs[0] == rows@[0].deep_view());
            }
            proof {
                assert(rs[i as int].len() == rows@[i as int]@.len());
            }
            if rows[i].len() != hlen {
                return Err(GtfsError::Decode);
            }
            match T::from_row(&rows[0], &rows[i]) {
                Err(_) => {
                    return Err(GtfsError::Decode);
                },
                Ok(v) => {
                    out.push(v);
                },
            }
            i = i + 1;
        }
        Ok(out)
    }
}

// ---------------------------------------------------------------------------
// Lenient decoding with short-row repair: a data row with fewer fields
// than the header is repaired by appending empty trailing fields; a row
// with more fields than the header is a fatal error, as is any field that
// still fails after repair.
// ---------------------------------------------------------------------------

/// A row brought up to n fields by appending empty trailing fields.
pub open spec fn pad_row(row: Seq<Seq<char>>, n: int) -> Seq<Seq<char>> {
    if row.len() >= n {
        row
    } else {
        row + Seq::new((n - row.len()) as nat, |i: int| Seq::<char>::empty())
    }
}

pub open spec fn table_lenient_ok<T: GtfsObject>(rows: Seq<Seq<Seq<char>>>) -> bool {
    rows.len() == 0 || (forall|i: int|
        1 <= i < rows.len() ==> (#[trigger] rows[i]).len() <= rows[0].len() && T::row_ok(
            rows[0],
            pad_row(rows[i], rows[0].len() as int),
        ))
}

pub open spec fn table_lenient_matches<T: GtfsObject>(rows: Seq<Seq<Seq<char>>>, v: Seq<T>) -> bool {
    &&& v.len() == (if rows.len() == 0 {
        0int
    } else {
        rows.len() - 1
    })
    &&& forall|i: int|
        0 <= i < v.len() ==> T::row_matches(
            rows[0],
            pad_row(rows[i + 1], rows[0].len() as int),
            #[trigger] v[i],
        )
}

/// The named table is present and decodes after short-row repair.
pub open spec fn table_decodes_lenient<T: GtfsObject>(file: GtfsFile) -> bool {
    &&& file.text_of(T::spec_file()) is Some
    &&& table_lenient_ok::<T>(spec_rows(file.text_of(T::spec_file())->0))
}

impl GtfsFile {
    /// Decode the whole of T's table, repairing rows that are short of the
    /// header's field count by appending empty trailing fields. Any other
    /// malformation — a row longer than the header, or a field that fails
    /// its codec even after repair — fails the read.
    pub fn read_vec_repaired<T: GtfsObject>(&self) -> (r: Result<Vec<T>, GtfsError>)
        ensures
            r is Ok <==> table_decodes_lenient::<T>(*self),
            r matches Ok(v) ==> table_lenient_matches::<T>(
                spec_rows(self.text_of(T::spec_file())->0),
                v.view(),
            ),
            r matches Err(e) ==> (e == GtfsError::MissingFile <==> self.text_of(T::spec_file())
                is None),
            r matches Err(e) ==> e == GtfsError::MissingFile || e == GtfsError::Decode,
    {
        let fname = T::file_name();
        let text = match self.member_text(fname.as_str()) {
            None => {
                return Err(GtfsError::MissingFile);
            },
            Some(t) => t,
        };
        let rows = text_rows(text.as_str());
        let ghost rs = spec_rows(self.text_of(T::spec_file())->0);
        proof {
            assert(rows.deep_view() == rs);
        }
        if rows.len() == 0 {
            let out: Vec<T> = Vec::new();
            return Ok(out);
        }
        let hlen = rows[0].len();
        proof {
            assert(rs[0] == rows@[0].deep_view());
            assert(rs[0].len() == hlen);
        }
        let mut out: Vec<T> = Vec::new();
        let mut i: usize = 1;
        while i < rows.len()
            invariant
                1 <= i <= rows.len(),
                self.text_of(T::spec_file()) is Some,
                rs == spec_rows(self.text_of(T::spec_file())->0),
                rows.deep_view() == rs,
                rs.len() == rows@.len(),
                rs.len() >= 1,
                hlen == rs[0].len(),
                hlen == rows@[0]@.len(),
                forall|j: int|
                    1 <= j < i ==> (#[trigger] rs[j]).len() <= rs[0].len() && T::row_ok(
                        rs[0],
                        pad_row(rs[j], rs[0].len() as int),
                    ),
                out@.len() == i - 1,
                forall|j: int|
                    0 <= j < out@.len() ==> T::row_matches(
                        rs[0],
                        pad_row(rs[j + 1], rs[0].len() as int),
                        #[trigger] out@[j],
                    ),
            decreases rows@.len() - i,
        {
            proof {
                assert(rs[i as int] == rows@[i as int].deep_view());
                assert(rs[0] == rows@[0].deep_view());
            }
            proof {
                assert(rs[i as int].len() == rows@[i as int]@.len());
            }
            if rows[i].len() > hlen {
                return Err(GtfsError::Decode);
            }
            let mut padded = rows[i].clone();
            proof {
                assert(padded.deep_view() =~= rs[i as int]);
            }
            while padded.len() < hlen
                invariant
                    1 <= i < rs.len(),
                    rs.len() >= 1,
                    rs[i as int].len() <= padded@.len() <= hlen,
                    hlen == rs[0].len(),
                    padded.deep_view() =~= pad_row(rs[i as int], padded@.len() as int),
                decreases hlen - padded@.len(),
            {
                let ghost pre = padded.deep_view();
                padded.push(String::new());
                proof {
                    assert(padded.deep_view() =~= pre.push(Seq::<char>::empty()));
                    assert(padded.deep_view() =~= pad_row(rs[i as int], padded@.len() as int));
                }
            }
            proof {
                assert(padded.deep_view() =~= pad_row(rs[i as int], rs[0].len() as int));
            }
            match T::from_row(&rows[0], &padded) {
                Err(_) => {
                    return Err(GtfsError::Decode);
                },
                Ok(v) => {
                    out.push(v);
                },
            }
            i = i + 1;
        }
        Ok(out)
    }
}

// ---------------------------------------------------------------------------
// Views of a decoded table, for queries over its rows.
// ---------------------------------------------------------------------------

/// The header row of T's table; meaningful when the member is present and
/// non-empty.
pub open spec fn table_header<T: GtfsObject>(file: GtfsFile) -> Seq<Seq<char>> {
    spec_rows(file.text_of(T::spec_file())->0)[0]
}

/// The data rows of T's table, after the header.
pub open spec fn table_data<T: GtfsObject>(file: GtfsFile) -> Seq<Seq<Seq<char>>> {
    let rows = spec_rows(file.text_of(T::spec_file())->0);
    if rows.len() == 0 {
        Seq::<Seq<Seq<char>>>::empty()
    } else {
        rows.drop_first()
    }
}

/// Every row brought up to n fields.
pub open spec fn padded_rows(d: Seq<Seq<Seq<char>>>, n: int) -> Seq<Seq<Seq<char>>>
    decreases d.len(),
{
    if d.len() == 0 {
        Seq::<Seq<Seq<char>>>::empty()
    } else {
        padded_rows(d.drop_last(), n).push(pad_row(d.last(), n))
    }
}

pub proof fn lemma_padded_rows_index(d: Seq<Seq<Seq<char>>>, n: int, i: int)
    requires
        0 <= i < d.len(),
    ensures
        padded_rows(d, n).len() == d.len(),
        padded_rows(d, n)[i] == pad_row(d[i], n),
    decreases d.len(),
{
    lemma_padded_rows_len(d, n);
    if i < d.len() - 1 {
        lemma_padded_rows_index(d.drop_last(), n, i);
        assert(d.drop_last()[i] == d[i]);
    }
}

pub proof fn lemma_padded_rows_len(d: Seq<Seq<Seq<char>>>, n: int)
    ensures
        padded_rows(d, n).len() == d.len(),
    decreases d.len(),
{
    if d.len() > 0 {
        lemma_padded_rows_len(d.drop_last(), n);
    }
}

/// Restates what a strictly decoded vector satisfies, header and data
/// rows named apart.
pub proof fn lemma_table_matches_data<T: GtfsObject>(file: GtfsFile, v: Seq<T>)
    requires
        file.text_of(T::spec_file()) is Some,
        table_matches::<T>(spec_rows(file.text_of(T::spec_file())->0), v),
    ensures
        v.len() == table_data::<T>(file).len(),
        forall|i: int|
            0 <= i < v.len() ==> T::row_matches(
                table_header::<T>(file),
                table_data::<T>(file)[i],
                #[trigger] v[i],
            ),
{
    let rows = spec_rows(file.text_of(T::spec_file())->0);
    if rows.len() > 0 {
        assert(forall|i: int| 0 <= i < rows.len() - 1 ==> rows.drop_first()[i] == rows[i + 1]);
    }
}

/// Restates what a leniently decoded vector satisfies, over padded rows.
pub proof fn lemma_table_lenient_matches_data<T: GtfsObject>(file: GtfsFile, v: Seq<T>)
    requires
        file.text_of(T::spec_file()) is Some,
        table_lenient_matches::<T>(spec_rows(file.text_of(T::spec_file())->0), v),
    ensures
        v.len() == table_data::<T>(file).len(),
        forall|i: int|
            0 <= i < v.len() ==> T::row_matches(
                table_header::<T>(file),
                padded_rows(table_data::<T>(file), table_header::<T>(file).len() as int)[i],
                #[trigger] v[i],
            ),
{
    let rows = spec_rows(file.text_of(T::spec_file())->0);
    let d = table_data::<T>(file);
    let n = table_header::<T>(file).len() as int;
    if rows.len() > 0 {
        assert(forall|i: int| 0 <= i < rows.len() - 1 ==> rows.drop_first()[i] == rows[i + 1]);
        assert forall|i: int| 0 <= i < v.len() implies T::row_matches(
            table_header::<T>(file),
            padded_rows(d, n)[i],
            #[trigger] v[i],
        ) by {
            lemma_padded_rows_index(d, n, i);
        }
    }
}

} // verus!
