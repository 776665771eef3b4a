//! The record pipeline: read rows one at a time, substitute in the target
//! column, write each transformed row before reading the next.
//!
//! One run works in exactly one of two modes, text or raw bytes, fixed at
//! startup; the two paths share their shape but never their data. When
//! headers are enabled, the first row is consumed for column-name lookup and
//! re-emitted verbatim before any data row. A row whose field count does not
//! reach the target column simply has no field there and passes through
//! whole.

use vstd::prelude::*;

use crate::columns::{resolve_column_byte, resolve_column_text, resolve_spec_bytes,
    resolve_spec_chars};
use crate::errors::Error;
use crate::pattern::{byte_compiles, replaced_bytes, replaced_text, text_compiles, BytePattern,
    TextPattern};
use crate::rows::{byte_csv_of, byte_read_row, byte_reader_new, byte_rows_left, byte_rows_of,
    byte_rows_written, byte_write_row, byte_writer_delimiter, byte_writer_into_bytes,
    byte_writer_new, text_csv_of, text_read_row, text_reader_clean, text_reader_new,
    text_rows_clean, text_rows_left, text_rows_of, text_rows_written, text_write_row,
    text_writer_delimiter, text_writer_into_bytes, text_writer_new};

verus! {

/// One row after the transform: the field at the target column is replaced,
/// every other field is exactly the input field.
pub open spec fn transform_row_text(
    pattern: Seq<char>,
    template: Seq<char>,
    column: int,
    row: Seq<Seq<char>>,
) -> Seq<Seq<char>> {
    Seq::new(
        row.len(),
        |i: int|
            if i == column {
                replaced_text(pattern, row[i], template)
            } else {
                row[i]
            },
    )
}

pub open spec fn transform_row_byte(
    pattern: Seq<char>,
    template: Seq<u8>,
    column: int,
    row: Seq<Seq<u8>>,
) -> Seq<Seq<u8>> {
    Seq::new(
        row.len(),
        |i: int|
            if i == column {
                replaced_bytes(pattern, row[i], template)
            } else {
                row[i]
            },
    )
}

/// The whole output: with headers enabled the first row passes through
/// unchanged, every further row is transformed.
pub open spec fn transform_rows_text(
    pattern: Seq<char>,
    template: Seq<char>,
    column: int,
    headers_enabled: bool,
    rows: Seq<Seq<Seq<char>>>,
) -> Seq<Seq<Seq<char>>> {
    if headers_enabled && rows.len() > 0 {
        seq![rows[0]] + rows.drop_first().map_values(
            |row: Seq<Seq<char>>| transform_row_text(pattern, template, column, row),
        )
    } else {
        rows.map_values(|row: Seq<Seq<char>>| transform_row_text(pattern, template, column, row))
    }
}

pub open spec fn transform_rows_byte(
    pattern: Seq<char>,
    template: Seq<u8>,
    column: int,
    headers_enabled: bool,
    rows: Seq<Seq<Seq<u8>>>,
) -> Seq<Seq<Seq<u8>>> {
    if headers_enabled && rows.len() > 0 {
        seq![rows[0]] + rows.drop_first().map_values(
            |row: Seq<Seq<u8>>| transform_row_byte(pattern, template, column, row),
        )
    } else {
        rows.map_values(|row: Seq<Seq<u8>>| transform_row_byte(pattern, template, column, row))
    }
}

/// The row a name is resolved against: the first row where there is one, an
/// empty row otherwise.
pub open spec fn header_row_text(rows: Seq<Seq<Seq<char>>>) -> Seq<Seq<char>> {
    if rows.len() > 0 {
        rows[0]
    } else {
        Seq::empty()
    }
}

pub open spec fn header_row_byte(rows: Seq<Seq<Seq<u8>>>) -> Seq<Seq<u8>> {
    if rows.len() > 0 {
        rows[0]
    } else {
        Seq::empty()
    }
}

proof fn lemma_transform_rows_text_empty(
    pattern: Seq<char>,
    template: Seq<char>,
    column: int,
    headers_enabled: bool,
    rows: Seq<Seq<Seq<char>>>,
)
    ensures
        transform_rows_text(pattern, template, column, headers_enabled, rows.take(0))
            == Seq::<Seq<Seq<char>>>::empty(),
{
    assert(transform_rows_text(pattern, template, column, headers_enabled, rows.take(0))
        =~= Seq::<Seq<Seq<char>>>::empty());
}

proof fn lemma_transform_rows_byte_empty(
    pattern: Seq<char>,
    template: Seq<u8>,
    column: int,
    headers_enabled: bool,
    rows: Seq<Seq<Seq<u8>>>,
)
    ensures
        transform_rows_byte(pattern, template, column, headers_enabled, rows.take(0))
            == Seq::<Seq<Seq<u8>>>::empty(),
{
    assert(transform_rows_byte(pattern, template, column, headers_enabled, rows.take(0))
        =~= Seq::<Seq<Seq<u8>>>::empty());
}

proof fn lemma_transform_rows_text_header(
    pattern: Seq<char>,
    template: Seq<char>,
    column: int,
    rows: Seq<Seq<Seq<char>>>,
)
    requires
        rows.len() > 0,
    ensures
        transform_rows_text(pattern, template, column, true, rows.take(1)) == seq![rows[0]],
{
    assert(transform_rows_text(pattern, template, column, true, rows.take(1)) =~= seq![rows[0]]);
}

proof fn lemma_transform_rows_byte_header(
    pattern: Seq<char>,
    template: Seq<u8>,
    column: int,
    rows: Seq<Seq<Seq<u8>>>,
)
    requires
        rows.len() > 0,
    ensures
        transform_rows_byte(pattern, template, column, true, rows.take(1)) == seq![rows[0]],
{
    assert(transform_rows_byte(pattern, template, column, true, rows.take(1)) =~= seq![rows[0]]);
}

/// Taking one more input row appends exactly its transform to the output.
proof fn lemma_transform_rows_text_step(
    pattern: Seq<char>,
    template: Seq<char>,
    column: int,
    headers_enabled: bool,
    rows: Seq<Seq<Seq<char>>>,
    c: int,
)
    requires
        0 <= c < rows.len(),
        headers_enabled ==> c >= 1,
    ensures
        transform_rows_text(pattern, template, column, headers_enabled, rows.take(c + 1))
            == transform_rows_text(pattern, template, column, headers_enabled, rows.take(c)).push(
            transform_row_text(pattern, template, column, rows[c]),
        ),
{
    let f = |row: Seq<Seq<char>>| transform_row_text(pattern, template, column, row);
    if headers_enabled {
        assert(rows.take(c + 1).drop_first() =~= rows.drop_first().take(c));
        assert(rows.take(c).drop_first() =~= rows.drop_first().take(c - 1));
        assert(rows.drop_first().take(c).map_values(f) =~= rows.drop_first().take(c - 1).map_values(
            f,
        ).push(f(rows[c])));
        assert(transform_rows_text(pattern, template, column, headers_enabled, rows.take(c + 1))
            =~= transform_rows_text(pattern, template, column, headers_enabled, rows.take(c)).push(
            transform_row_text(pattern, template, column, rows[c]),
        ));
    } else {
        assert(rows.take(c + 1).map_values(f) =~= rows.take(c).map_values(f).push(f(rows[c])));
    }
}

proof fn lemma_transform_rows_byte_step(
    pattern: Seq<char>,
    template: Seq<u8>,
    column: int,
    headers_enabled: bool,
    rows: Seq<Seq<Seq<u8>>>,
    c: int,
)
    requires
        0 <= c < rows.len(),
        headers_enabled ==> c >= 1,
    ensures
        transform_rows_byte(pattern, template, column, headers_enabled, rows.take(c + 1))
            == transform_rows_byte(pattern, template, column, headers_enabled, rows.take(c)).push(
            transform_row_byte(pattern, template, column, rows[c]),
        ),
{
    let f = |row: Seq<Seq<u8>>| transform_row_byte(pattern, template, column, row);
    if headers_enabled {
        assert(rows.take(c + 1).drop_first() =~= rows.drop_first().take(c));
        assert(rows.take(c).drop_first() =~= rows.drop_first().take(c - 1));
        assert(rows.drop_first().take(c).map_values(f) =~= rows.drop_first().take(c - 1).map_values(
            f,
        ).push(f(rows[c])));
        assert(transform_rows_byte(pattern, template, column, headers_enabled, rows.take(c + 1))
            =~= transform_rows_byte(pattern, template, column, headers_enabled, rows.take(c)).push(
            transform_row_byte(pattern, template, column, rows[c]),
        ));
    } else {
        assert(rows.take(c + 1).map_values(f) =~= rows.take(c).map_values(f).push(f(rows[c])));
    }
}

/// Copies a byte field.
fn copy_bytes(v: &Vec<u8>) -> (r: Vec<u8>)
    ensures
        r@ == v@,
{
    vstd::slice::slice_to_vec(v.as_slice())
}

/// Transforms one text row: the target column is substituted, all others are
/// passed through unchanged.
pub fn transform_record_string(
    p: &TextPattern,
    template: &String,
    column: usize,
    row: &Vec<String>,
) -> (out: Vec<String>)
    ensures
        out.deep_view() == transform_row_text(p.src(), template@, column as int, row.deep_view()),
{
    let mut out: Vec<String> = Vec::new();
    let mut i: usize = 0;
    while i < row.len()
        invariant
            0 <= i <= row.len(),
            out.len() == i,
            forall|k: int|
                0 <= k < i ==> out.deep_view()[k] == transform_row_text(
                    p.src(),
                    template@,
                    column as int,
                    row.deep_view(),
                )[k],
        decreases row.len() - i,
    {
        let ghost pre = out.deep_view();
        let field = if i == column {
            p.replace_all(row[i].as_str(), template)
        } else {
            row[i].clone()
        };
        proof {
            assert(row.deep_view()[i as int] == row@[i as int]@);
            assert(field@ == transform_row_text(
                p.src(),
                template@,
                column as int,
                row.deep_view(),
            )[i as int]);
        }
        out.push(field);
        proof {
            assert(out.deep_view() =~= pre.push(out@[i as int]@));
        }
        i = i + 1;
    }
    proof {
        assert(out.deep_view() =~= transform_row_text(
            p.src(),
            template@,
            column as int,
            row.deep_view(),
        ));
    }
    out
}

/// Transforms one byte row, with no Unicode assumption on any field.
pub fn transform_record_bytes(
    p: &BytePattern,
    template: &Vec<u8>,
    column: usize,
    row: &Vec<Vec<u8>>,
) -> (out: Vec<Vec<u8>>)
    ensures
        out.deep_view() == transform_row_byte(p.src(), template@, column as int, row.deep_view()),
{
    let mut out: Vec<Vec<u8>> = Vec::new();
    let mut i: usize = 0;
    while i < row.len()
        invariant
            0 <= i <= row.len(),
            out.len() == i,
            forall|k: int|
                0 <= k < i ==> out.deep_view()[k] == transform_row_byte(
                    p.src(),
                    template@,
                    column as int,
                    row.deep_view(),
                )[k],
        decreases row.len() - i,
    {
        let ghost pre = out.deep_view();
        let field = if i == column {
            p.replace_all(&row[i], template)
        } else {
            copy_bytes(&row[i])
        };
        proof {
            assert(row.deep_view()[i as int] =~= row@[i as int]@);
            assert(field.deep_view() =~= field@);
            assert(field@ == transform_row_byte(
                p.src(),
                template@,
                column as int,
                row.deep_view(),
            )[i as int]);
        }
        out.push(field);
        proof {
            assert(out.deep_view() =~= pre.push(out@[i as int].deep_view()));
            assert(out@[i as int].deep_view() =~= out@[i as int]@);
        }
        i = i + 1;
    }
    proof {
        assert(out.deep_view() =~= transform_row_byte(
            p.src(),
            template@,
            column as int,
            row.deep_view(),
        ));
    }
    out
}

/// The whole text-mode run over in-memory input: frame rows with the given
/// delimiter, resolve the column spec (against the first row when headers are
/// enabled), then stream every data row through the substitution. The run is
/// all-or-nothing: a failure returns no bytes for the rows already
/// transformed.
///
/// When the pattern compiles and the framed input is clean, the run succeeds
/// exactly when column resolution does: success yields the framing of the
/// transformed rows, failure yields resolution's own error. A pattern the
/// engine rejects always yields `PatternCompile`; `RowFormat` arises only
/// from unclean input.
pub fn run_string(
    input: &Vec<u8>,
    delimiter: u8,
    column: &String,
    headers_enabled: bool,
    pattern: &String,
    replacement: &String,
) -> (r: Result<Vec<u8>, Error>)
    ensures
        ({
            let rows = text_rows_of(input@, delimiter);
            let clean = text_rows_clean(input@, delimiter);
            let res = resolve_spec_chars(column@, headers_enabled, header_row_text(rows));
            &&& (!text_compiles(pattern@) ==> (r matches Err(e) && e matches
            Error::PatternCompile(_)))
            &&& (r matches Ok(out) ==> res matches Ok(c) && out@ == text_csv_of(
                transform_rows_text(pattern@, replacement@, c, headers_enabled, rows),
                delimiter,
            ))
            &&& (r matches Err(e) ==> ((e matches Error::PatternCompile(_) && !text_compiles(
                pattern@,
            )) || (e matches Error::RowFormat(_) && !clean) || res == Err::<int, Error>(e)))
            &&& (text_compiles(pattern@) && clean && (res matches Ok(_)) ==> (r matches Ok(_)))
            &&& (text_compiles(pattern@) && clean ==> match r {
                Ok(_) => true,
                Err(e) => res == Err::<int, Error>(e),
            })
        }),
{
    let ghost rows = text_rows_of(input@, delimiter);
    let p = match TextPattern::new(pattern) {
        Ok(p) => p,
        Err(e) => {
            return Err(e);
        },
    };
    let mut reader = text_reader_new(copy_bytes(input), delimiter);
    let mut writer = text_writer_new(delimiter);
    let ghost mut consumed: int = 0;
    let column_index: usize;
    if headers_enabled {
        let first = match text_read_row(&mut reader) {
            Ok(v) => v,
            Err(m) => {
                return Err(Error::RowFormat(m));
            },
        };
        match first {
            Some(header) => {
                proof {
                    consumed = 1;
                    assert(header.deep_view() == rows[0]);
                }
                column_index = match resolve_column_text(column, true, Some(&header)) {
                    Ok(i) => i,
                    Err(e) => {
                        return Err(e);
                    },
                };
                match text_write_row(&mut writer, &header) {
                    Ok(u) => u,
                    Err(m) => {
                        return Err(Error::RowFormat(m));
                    },
                };
                proof {
                    lemma_transform_rows_text_header(
                        pattern@,
                        replacement@,
                        column_index as int,
                        rows,
                    );
                    assert(Seq::<Seq<Seq<char>>>::empty().push(rows[0]) =~= seq![rows[0]]);
                    assert(rows.skip(1) =~= rows.drop_first());
                }
            },
            None => {
                column_index = match resolve_column_text(column, true, None) {
                    Ok(i) => i,
                    Err(e) => {
                        return Err(e);
                    },
                };
                proof {
                    lemma_transform_rows_text_empty(
                        pattern@,
                        replacement@,
                        column_index as int,
                        headers_enabled,
                        rows,
                    );
                    assert(rows.skip(0) =~= rows);
                }
            },
        }
    } else {
        column_index = match resolve_column_text(column, false, None) {
            Ok(i) => i,
            Err(e) => {
                return Err(e);
            },
        };
        proof {
            lemma_transform_rows_text_empty(
                pattern@,
                replacement@,
                column_index as int,
                headers_enabled,
                rows,
            );
            assert(rows.skip(0) =~= rows);
        }
    }
    loop
        invariant
            p.src() == pattern@,
            text_compiles(pattern@),
            rows == text_rows_of(input@, delimiter),
            resolve_spec_chars(column@, headers_enabled, header_row_text(rows)) == Ok::<
                int,
                Error,
            >(column_index as int),
            0 <= consumed <= rows.len(),
            headers_enabled ==> (consumed >= 1 || rows.len() == 0),
            text_rows_left(reader) == rows.skip(consumed),
            text_reader_clean(reader) == text_rows_clean(input@, delimiter),
            text_writer_delimiter(writer) == delimiter,
            text_rows_written(writer) == transform_rows_text(
                pattern@,
                replacement@,
                column_index as int,
                headers_enabled,
                rows.take(consumed),
            ),
        decreases rows.len() - consumed,
    {
        let next = match text_read_row(&mut reader) {
            Ok(v) => v,
            Err(m) => {
                return Err(Error::RowFormat(m));
            },
        };
        match next {
            Some(row) => {
                proof {
                    assert(rows.skip(consumed)[0] == rows[consumed]);
                    assert(row.deep_view() == rows[consumed]);
                }
                let out_row = transform_record_string(&p, replacement, column_index, &row);
                proof {
                    lemma_transform_rows_text_step(
                        pattern@,
                        replacement@,
                        column_index as int,
                        headers_enabled,
                        rows,
                        consumed,
                    );
                }
                match text_write_row(&mut writer, &out_row) {
                    Ok(u) => u,
                    Err(m) => {
                        return Err(Error::RowFormat(m));
                    },
                };
                proof {
                    consumed = consumed + 1;
                    assert(rows.skip(consumed) =~= rows.skip(consumed - 1).drop_first());
                }
            },
            None => {
                proof {
                    assert(rows.skip(consumed).len() == 0);
                    assert(rows.take(consumed) =~= rows);
                }
                return match text_writer_into_bytes(writer) {
                    Ok(b) => Ok(b),
                    Err(m) => Err(Error::RowFormat(m)),
                };
            },
        }
    }
}

/// The whole byte-mode run: as `run_string`, over raw bytes, with no Unicode
/// requirement on the input, the fields or the replacement. Framing over
/// bytes cannot fail, so once the pattern compiles the run's outcome is
/// column resolution's outcome, whatever bytes the input holds.
pub fn run_bytes(
    input: &Vec<u8>,
    delimiter: u8,
    column: &Vec<u8>,
    headers_enabled: bool,
    pattern: &String,
    replacement: &Vec<u8>,
) -> (r: Result<Vec<u8>, Error>)
    ensures
        ({
            let rows = byte_rows_of(input@, delimiter);
            let res = resolve_spec_bytes(column@, headers_enabled, header_row_byte(rows));
            &&& (!byte_compiles(pattern@) ==> (r matches Err(e) && e matches
            Error::PatternCompile(_)))
            &&& (byte_compiles(pattern@) ==> match r {
                Ok(out) => res matches Ok(c) && out@ == byte_csv_of(
                    transform_rows_byte(pattern@, replacement@, c, headers_enabled, rows),
                    delimiter,
                ),
                Err(e) => res == Err::<int, Error>(e),
            })
        }),
{
    let ghost rows = byte_rows_of(input@, delimiter);
    let p = match BytePattern::new(pattern) {
        Ok(p) => p,
        Err(e) => {
            return Err(e);
        },
    };
    let mut reader = byte_reader_new(copy_bytes(input), delimiter);
    let mut writer = byte_writer_new(delimiter);
    let ghost mut consumed: int = 0;
    let column_index: usize;
    if headers_enabled {
        let first = match byte_read_row(&mut reader) {
            Ok(v) => v,
            Err(m) => {
                return Err(Error::RowFormat(m));
            },
        };
        match first {
            Some(header) => {
                proof {
                    consumed = 1;
                    assert(header.deep_view() == rows[0]);
                }
                column_index = match resolve_column_byte(column, true, Some(&header)) {
                    Ok(i) => i,
                    Err(e) => {
                        return Err(e);
                    },
                };
                match byte_write_row(&mut writer, &header) {
                    Ok(u) => u,
                    Err(m) => {
                        return Err(Error::RowFormat(m));
                    },
                };
                proof {
                    lemma_transform_rows_byte_header(
                        pattern@,
                        replacement@,
                        column_index as int,
                        rows,
                    );
                    assert(Seq::<Seq<Seq<u8>>>::empty().push(rows[0]) =~= seq![rows[0]]);
                    assert(rows.skip(1) =~= rows.drop_first());
                }
            },
            None => {
                column_index = match resolve_column_byte(column, true, None) {
                    Ok(i) => i,
                    Err(e) => {
                        return Err(e);
                    },
                };
                proof {
                    lemma_transform_rows_byte_empty(
                        pattern@,
                        replacement@,
                        column_index as int,
                        headers_enabled,
                        rows,
                    );
                    assert(rows.skip(0) =~= rows);
                }
            },
        }
    } else {
        column_index = match resolve_column_byte(column, false, None) {
            Ok(i) => i,
            Err(e) => {
                return Err(e);
            },
        };
        proof {
            lemma_transform_rows_byte_empty(
                pattern@,
                replacement@,
                column_index as int,
                headers_enabled,
                rows,
            );
            assert(rows.skip(0) =~= rows);
        }
    }
    loop
        invariant
            p.src() == pattern@,
            byte_compiles(pattern@),
            rows == byte_rows_of(input@, delimiter),
            resolve_spec_bytes(column@, headers_enabled, header_row_byte(rows)) == Ok::<
                int,
                Error,
            >(column_index as int),
            0 <= consumed <= rows.len(),
            headers_enabled ==> (consumed >= 1 || rows.len() == 0),
            byte_rows_left(reader) == rows.skip(consumed),
            byte_writer_delimiter(writer) == delimiter,
            byte_rows_written(writer) == transform_rows_byte(
                pattern@,
                replacement@,
                column_index as int,
                headers_enabled,
                rows.take(consumed),
            ),
        decreases rows.len() - consumed,
    {
        let next = match byte_read_row(&mut reader) {
            Ok(v) => v,
            Err(m) => {
                return Err(Error::RowFormat(m));
            },
        };
        match next {
            Some(row) => {
                proof {
                    assert(rows.skip(consumed)[0] == rows[consumed]);
                    assert(row.deep_view() == rows[consumed]);
                }
                let out_row = transform_record_bytes(&p, replacement, column_index, &row);
                proof {
                    lemma_transform_rows_byte_step(
                        pattern@,
                        replacement@,
                        column_index as int,
                        headers_enabled,
                        rows,
                        consumed,
                    );
                }
                match byte_write_row(&mut writer, &out_row) {
                    Ok(u) => u,
                    Err(m) => {
                        return Err(Error::RowFormat(m));
                    },
                };
                proof {
                    consumed = consumed + 1;
                    assert(rows.skip(consumed) =~= rows.skip(consumed - 1).drop_first());
                }
            },
            None => {
                proof {
                    assert(rows.skip(consumed).len() == 0);
                    assert(rows.take(consumed) =~= rows);
                }
                return match byte_writer_into_bytes(writer) {
                    Ok(b) => Ok(b),
                    Err(m) => Err(Error::RowFormat(m)),
                };
            },
        }
    }
}

/// Non-target fields are untouched: the transform keeps the row count, keeps
/// every row's field count, and at every position other than the target
/// column the output field equals the input field exactly.
pub proof fn lemma_non_target_fields_unchanged_text(
    pattern: Seq<char>,
    template: Seq<char>,
    column: int,
    headers_enabled: bool,
    rows: Seq<Seq<Seq<char>>>,
    r: int,
    i: int,
)
    requires
        0 <= r < rows.len(),
        0 <= i < rows[r].len(),
        i != column,
    ensures
        ({
            let out = transform_rows_text(pattern, template, column, headers_enabled, rows);
            &&& out.len() == rows.len()
            &&& out[r].len() == rows[r].len()
            &&& out[r][i] == rows[r][i]
        }),
{
    let out = transform_rows_text(pattern, template, column, headers_enabled, rows);
    if headers_enabled && r > 0 {
        assert(out[r] == transform_row_text(pattern, template, column, rows.drop_first()[r - 1]));
        assert(rows.drop_first()[r - 1] == rows[r]);
    }
}

/// The byte-mode counterpart of `lemma_non_target_fields_unchanged_text`.
pub proof fn lemma_non_target_fields_unchanged_byte(
    pattern: Seq<char>,
    template: Seq<u8>,
    column: int,
    headers_enabled: bool,
    rows: Seq<Seq<Seq<u8>>>,
    r: int,
    i: int,
)
    requires
        0 <= r < rows.len(),
        0 <= i < rows[r].len(),
        i != column,
    ensures
        ({
            let out = transform_rows_byte(pattern, template, column, headers_enabled, rows);
            &&& out.len() == rows.len()
            &&& out[r].len() == rows[r].len()
            &&& out[r][i] == rows[r][i]
        }),
{
    let out = transform_rows_byte(pattern, template, column, headers_enabled, rows);
    if headers_enabled && r > 0 {
        assert(out[r] == transform_row_byte(pattern, template, column, rows.drop_first()[r - 1]));
        assert(rows.drop_first()[r - 1] == rows[r]);
    }
}

/// Header passthrough: with headers enabled, the first output row equals the
/// first input row exactly, whatever the pattern and template.
pub proof fn lemma_header_passthrough_text(
    pattern: Seq<char>,
    template: Seq<char>,
    column: int,
    rows: Seq<Seq<Seq<char>>>,
)
    requires
        rows.len() > 0,
    ensures
        transform_rows_text(pattern, template, column, true, rows).len() == rows.len(),
        transform_rows_text(pattern, template, column, true, rows)[0] == rows[0],
{
}

/// The byte-mode counterpart of `lemma_header_passthrough_text`.
pub proof fn lemma_header_passthrough_byte(
    pattern: Seq<char>,
    template: Seq<u8>,
    column: int,
    rows: Seq<Seq<Seq<u8>>>,
)
    requires
        rows.len() > 0,
    ensures
        transform_rows_byte(pattern, template, column, true, rows).len() == rows.len(),
        transform_rows_byte(pattern, template, column, true, rows)[0] == rows[0],
{
}

} // verus!
