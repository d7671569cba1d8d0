//! JSON documents, and the sensor values that one holds.

use crate::reply::Refusal;
use vstd::prelude::*;

verus! {

/// A JSON document whose numbers are of type `T`.
#[derive(Debug)]
pub enum Json<T> {
    Null,
    Bool(bool),
    Number(T),
    Text(String),
    Array(Vec<Json<T>>),
    /// The fields of an object, each with its name.
    Object(Vec<(String, Json<T>)>),
}

/// The field of a document that holds the sensor values.
pub open spec fn sensor_key() -> Seq<char> {
    "sensor_"@
}

/// The first of `fields` that has the name `key`.
pub open spec fn first_field<T>(fields: Seq<(String, Json<T>)>, key: Seq<char>) -> Option<Json<T>>
    decreases fields.len(),
{
    if fields.len() == 0 {
        None
    } else if fields[0].0@ == key {
        Some(fields[0].1)
    } else {
        first_field(fields.skip(1), key)
    }
}

/// The value of a document's field `key`. Only an object has fields.
pub open spec fn field<T>(document: Json<T>, key: Seq<char>) -> Option<Json<T>> {
    match document {
        Json::Object(fields) => first_field(fields@, key),
        _ => None,
    }
}

/// The values of one row: an array of numbers.
pub open spec fn row_values<T>(row: Json<T>) -> Result<Seq<T>, Refusal> {
    match row {
        Json::Array(cells) => if forall|i: int|
            0 <= i < cells@.len() ==> (#[trigger] cells@[i]) is Number {
            Ok(cells@.map_values(|cell: Json<T>| cell->Number_0))
        } else {
            Err(Refusal::NonNumeric)
        },
        _ => Err(Refusal::RowNotArray),
    }
}

/// The values of all rows, one row behind the other. The first row that has none decides what is
/// wrong.
pub open spec fn rows_values<T>(rows: Seq<Json<T>>) -> Result<Seq<T>, Refusal>
    decreases rows.len(),
{
    if rows.len() == 0 {
        Ok(Seq::empty())
    } else {
        match rows_values(rows.drop_last()) {
            Err(refusal) => Err(refusal),
            Ok(before) => match row_values(rows.last()) {
                Err(refusal) => Err(refusal),
                Ok(values) => Ok(before + values),
            },
        }
    }
}

/// The sensor values that a document holds: the field `sensor_`, an array of arrays of numbers,
/// row by row.
pub open spec fn sensor_values<T>(document: Json<T>) -> Result<Seq<T>, Refusal> {
    match field(document, sensor_key()) {
        None => Err(Refusal::MissingSensorKey),
        Some(Json::Array(rows)) => rows_values(rows@),
        Some(_) => Err(Refusal::SensorNotArray),
    }
}

impl<T> Json<T> {
    /// The value of the field `key`. Only an object has fields; of several with one name the
    /// first counts.
    pub fn get(&self, key: &str) -> (value: Option<&Json<T>>)
        ensures
            value is Some <==> field(*self, key@) is Some,
            value matches Some(v) ==> field(*self, key@) == Some(*v),
    {
        match self {
            Json::Object(fields) => {
                let wanted: String = key.to_owned();
                let mut i: usize = 0;
                assert(fields@.skip(0) =~= fields@);
                while i < fields.len()
                    invariant
                        i <= fields@.len(),
                        *self == Json::Object(*fields),
                        wanted@ == key@,
                        first_field(fields@, key@) == first_field(fields@.skip(i as int), key@),
                    decreases fields.len() - i,
                {
                    assert(fields@.skip(i as int).skip(1) =~= fields@.skip(i + 1));
                    if fields[i].0 == wanted {
                        return Some(&fields[i].1);
                    }
                    i += 1;
                }
                None
            },
            _ => None,
        }
    }
}

/// Appends the values of `row` to `values`.
fn push_row<T: Copy>(values: &mut Vec<T>, row: &Json<T>) -> (pushed: Result<(), Refusal>)
    ensures
        match row_values(*row) {
            Ok(numbers) => pushed is Ok && final(values)@ == old(values)@ + numbers,
            Err(refusal) => pushed == Err::<(), Refusal>(refusal),
        },
{
    match row {
        Json::Array(cells) => {
            let mut i: usize = 0;
            while i < cells.len()
                invariant
                    i <= cells@.len(),
                    *row == Json::Array(*cells),
                    forall|j: int| 0 <= j < i ==> (#[trigger] cells@[j]) is Number,
                    values@ == old(values)@ + cells@.take(i as int).map_values(
                        |cell: Json<T>| cell->Number_0,
                    ),
                decreases cells.len() - i,
            {
                match &cells[i] {
                    Json::Number(number) => values.push(*number),
                    _ => {
                        assert(!(cells@[i as int] is Number));
                        return Err(Refusal::NonNumeric);
                    },
                }
                i += 1;
                assert(values@ =~= old(values)@ + cells@.take(i as int).map_values(
                    |cell: Json<T>| cell->Number_0,
                ));
            }
            assert(cells@.take(i as int) =~= cells@);
            Ok(())
        },
        _ => Err(Refusal::RowNotArray),
    }
}

/// No prefix of rows fails in another way than all of them do.
proof fn lemma_first_failure_decides<T>(rows: Seq<Json<T>>, k: int)
    requires
        0 <= k <= rows.len(),
        rows_values(rows.take(k)) is Err,
    ensures
        rows_values(rows) == rows_values(rows.take(k)),
    decreases rows.len() - k,
{
    if k < rows.len() {
        assert(rows.take(k + 1).drop_last() =~= rows.take(k));
        lemma_first_failure_decides(rows, k + 1);
    } else {
        assert(rows.take(k) =~= rows);
    }
}

/// The sensor values that a document holds, or what is wrong with it.
pub fn read_sensor_values<T: Copy>(document: &Json<T>) -> (values: Result<Vec<T>, Refusal>)
    ensures
        match sensor_values(*document) {
            Ok(expected) => values matches Ok(found) && found@ == expected,
            Err(refusal) => values == Err::<Vec<T>, Refusal>(refusal),
        },
{
    let rows = match document.get("sensor_") {
        None => {
            return Err(Refusal::MissingSensorKey);
        },
        Some(Json::Array(rows)) => rows,
        Some(_) => {
            return Err(Refusal::SensorNotArray);
        },
    };
    let mut values: Vec<T> = Vec::new();
    let mut i: usize = 0;
    while i < rows.len()
        invariant
            i <= rows@.len(),
            field(*document, sensor_key()) == Some(Json::Array(*rows)),
            rows_values(rows@.take(i as int)) == Ok::<Seq<T>, Refusal>(values@),
        decreases rows.len() - i,
    {
        assert(rows@.take(i + 1).drop_last() =~= rows@.take(i as int));
        match push_row(&mut values, &rows[i]) {
            Ok(()) => {},
            Err(refusal) => {
                proof {
                    lemma_first_failure_decides(rows@, i + 1);
                }
                return Err(refusal);
            },
        }
        i += 1;
    }
    assert(rows@.take(i as int) =~= rows@);
    Ok(values)
}

/// Rows are read in their order: the values of some rows followed by others are the values of
/// the first ones followed by those of the others.
pub proof fn rows_are_read_in_order<T>(rows: Seq<Json<T>>, more: Seq<Json<T>>)
    ensures
        rows_values(rows + more) == match rows_values(rows) {
            Err(refusal) => Err::<Seq<T>, Refusal>(refusal),
            Ok(values) => match rows_values(more) {
                Err(refusal) => Err(refusal),
                Ok(others) => Ok(values + others),
            },
        },
    decreases more.len(),
{
    if more.len() == 0 {
        assert(rows + more =~= rows);
        if let Ok(values) = rows_values(rows) {
            assert(values + Seq::<T>::empty() =~= values);
        }
    } else {
        rows_are_read_in_order(rows, more.drop_last());
        assert((rows + more).drop_last() =~= rows + more.drop_last());
        if let (Ok(values), Ok(others), Ok(last)) = (
            rows_values(rows),
            rows_values(more.drop_last()),
            row_values(more.last()),
        ) {
            assert((values + others) + last =~= values + (others + last));
        }
    }
}

/// Field number `i` is the first one with the name `key`.
pub open spec fn is_first_field<T>(
    fields: Seq<(String, Json<T>)>,
    key: Seq<char>,
    i: int,
) -> bool {
    &&& 0 <= i < fields.len()
    &&& fields[i].0@ == key
    &&& forall|j: int| 0 <= j < i ==> (#[trigger] fields[j]).0@ != key
}

/// A field that is found is the first one with its name, and none is found exactly if the name
/// is missing.
proof fn lemma_first_field<T>(fields: Seq<(String, Json<T>)>, key: Seq<char>)
    ensures
        match first_field(fields, key) {
            Some(value) => exists|i: int| #[trigger]
                is_first_field(fields, key, i) && fields[i].1 == value,
            None => forall|j: int| 0 <= j < fields.len() ==> (#[trigger] fields[j]).0@ != key,
        },
    decreases fields.len(),
{
    if fields.len() > 0 {
        if fields[0].0@ == key {
            assert(is_first_field(fields, key, 0));
        } else {
            let rest = fields.skip(1);
            lemma_first_field(rest, key);
            match first_field(rest, key) {
                Some(value) => {
                    let i = choose|i: int| #[trigger]
                        is_first_field(rest, key, i) && rest[i].1 == value;
                    assert forall|j: int| 0 <= j < i + 1 implies (#[trigger] fields[j]).0@
                        != key by {
                        if j > 0 {
                            assert(rest[j - 1].0@ != key);
                        }
                    }
                    assert(is_first_field(fields, key, i + 1));
                },
                None => {
                    assert forall|j: int| 0 <= j < fields.len() implies (#[trigger] fields[j]).0@
                        != key by {
                        if j > 0 {
                            assert(rest[j - 1].0@ != key);
                        }
                    }
                },
            }
        }
    }
}

/// The value of an object's field is that of the first field with its name; a name that no field
/// has, and any name on what is no object, has no value.
pub proof fn fields_are_found_by_name<T>(document: Json<T>, key: Seq<char>)
    ensures
        document matches Json::Object(fields) ==> forall|i: int| #[trigger]
            is_first_field(fields@, key, i) ==> field(document, key) == Some(fields@[i].1),
        document matches Json::Object(fields) ==> (field(document, key) is None <==> forall|j: int|
            0 <= j < fields@.len() ==> (#[trigger] fields@[j]).0@ != key),
        !(document is Object) ==> field(document, key) is None,
{
    if let Json::Object(fields) = document {
        lemma_first_field(fields@, key);
        assert forall|i: int| #[trigger] is_first_field(fields@, key, i) implies field(
            document,
            key,
        ) == Some(fields@[i].1) by {
            assert(fields@[i].0@ == key);
            let k = choose|k: int| #[trigger]
                is_first_field(fields@, key, k) && fields@[k].1 == field(document, key)->0;
            assert(is_first_field(fields@, key, k));
            assert(!(k < i)) by {
                if k < i {
                    assert(fields@[k].0@ != key);
                }
            }
            assert(!(i < k)) by {
                if i < k {
                    assert(fields@[i].0@ != key);
                }
            }
        }
    }
}

/// `row` is an array of numbers.
pub open spec fn is_row<T>(row: Json<T>) -> bool {
    row matches Json::Array(cells) && forall|j: int|
        0 <= j < cells@.len() ==> (#[trigger] cells@[j]) is Number
}

/// Number of cells in the first `r` rows.
pub open spec fn cells_before<T>(rows: Seq<Json<T>>, r: int) -> int
    decreases r,
{
    if r <= 0 {
        0
    } else {
        cells_before(rows, r - 1) + rows[r - 1]->Array_0@.len()
    }
}

/// A row of numbers is read cell by cell: there are as many values as cells, and each value is
/// the number in the cell with its index. Anything else is refused, a row that is no array in
/// another way than a row with a cell that is no number.
pub proof fn rows_are_read_cell_by_cell<T>(row: Json<T>)
    ensures
        is_row(row) <==> row_values(row) is Ok,
        is_row(row) ==> row_values(row)->Ok_0.len() == row->Array_0@.len(),
        is_row(row) ==> forall|j: int|
            0 <= j < row->Array_0@.len() ==> #[trigger] row->Array_0@[j] == Json::Number(
                row_values(row)->Ok_0[j],
            ),
        !(row is Array) ==> row_values(row) == Err::<Seq<T>, Refusal>(Refusal::RowNotArray),
        row is Array && !is_row(row) ==> row_values(row) == Err::<Seq<T>, Refusal>(
            Refusal::NonNumeric,
        ),
{
}

/// The number of cells in the first rows depends on these rows alone.
proof fn lemma_cells_of_prefix<T>(rows: Seq<Json<T>>, r: int, n: int)
    requires
        0 <= r <= n <= rows.len(),
    ensures
        cells_before(rows.take(n), r) == cells_before(rows, r),
    decreases r,
{
    if r > 0 {
        lemma_cells_of_prefix(rows, r - 1, n);
    }
}

/// More rows have no fewer cells.
proof fn lemma_cells_grow<T>(rows: Seq<Json<T>>, r: int, n: int)
    requires
        0 <= r <= n,
    ensures
        0 <= cells_before(rows, r) <= cells_before(rows, n),
    decreases n,
{
    if r < n {
        lemma_cells_grow(rows, r, n - 1);
    } else if r > 0 {
        lemma_cells_grow(rows, r - 1, r - 1);
    }
}

/// Rows of numbers are read in their order, and each of them in the order of its cells: the cell
/// number `j` of row number `r` stands behind all cells of the rows before it and the `j` cells
/// before it in its own row. Nothing else is read.
pub proof fn cells_are_read_in_order<T>(rows: Seq<Json<T>>)
    requires
        forall|r: int| 0 <= r < rows.len() ==> is_row(#[trigger] rows[r]),
    ensures
        rows_values(rows) is Ok,
        rows_values(rows)->Ok_0.len() == cells_before(rows, rows.len() as int),
        forall|r: int, j: int|
            0 <= r < rows.len() && 0 <= j < rows[r]->Array_0@.len() ==> Json::Number(
                rows_values(rows)->Ok_0[cells_before(rows, r) + j],
            ) == #[trigger] rows[r]->Array_0@[j],
    decreases rows.len(),
{
    if rows.len() > 0 {
        let n = rows.len() - 1;
        let earlier = rows.drop_last();
        assert forall|r: int| 0 <= r < earlier.len() implies is_row(#[trigger] earlier[r]) by {
            assert(is_row(rows[r]));
        }
        cells_are_read_in_order(earlier);
        assert(is_row(rows[n]));
        rows_are_read_cell_by_cell(rows[n]);
        assert(earlier =~= rows.take(n));
        lemma_cells_of_prefix(rows, n, n);
        let before = rows_values(earlier)->Ok_0;
        let last = row_values(rows[n])->Ok_0;
        assert(rows_values(rows) == Ok::<Seq<T>, Refusal>(before + last));
        assert forall|r: int, j: int|
            0 <= r < rows.len() && 0 <= j < rows[r]->Array_0@.len() implies Json::Number(
            rows_values(rows)->Ok_0[cells_before(rows, r) + j],
        ) == #[trigger] rows[r]->Array_0@[j] by {
            if r < n {
                assert(earlier[r] == rows[r]);
                assert(Json::Number(before[cells_before(earlier, r) + j])
                    == earlier[r]->Array_0@[j]);
                lemma_cells_of_prefix(rows, r, n);
                lemma_cells_grow(rows, r, r);
                lemma_cells_grow(rows, r + 1, n);
            } else {
                assert(rows[n]->Array_0@[j] == Json::Number(last[j]));
            }
        }
    }
}

/// The first row that is no array of numbers decides how all are refused: for being no array, or
/// for a cell that is no number.
pub proof fn the_first_faulty_row_decides<T>(rows: Seq<Json<T>>, r: int)
    requires
        0 <= r < rows.len(),
        forall|q: int| 0 <= q < r ==> is_row(#[trigger] rows[q]),
        !is_row(rows[r]),
    ensures
        rows[r] is Array ==> rows_values(rows) == Err::<Seq<T>, Refusal>(Refusal::NonNumeric),
        !(rows[r] is Array) ==> rows_values(rows) == Err::<Seq<T>, Refusal>(Refusal::RowNotArray),
{
    let earlier = rows.take(r);
    assert forall|q: int| 0 <= q < earlier.len() implies is_row(#[trigger] earlier[q]) by {
        assert(is_row(rows[q]));
    }
    cells_are_read_in_order(earlier);
    rows_are_read_cell_by_cell(rows[r]);
    assert(rows.take(r + 1).drop_last() =~= earlier);
    assert(rows.take(r + 1).last() == rows[r]);
    lemma_first_failure_decides(rows, r + 1);
}

/// A document is read at its first field `sensor_`: where that is an array, its rows are read; a
/// document without such a field, and one where it is no array, are each refused in a way of
/// their own.
pub proof fn documents_are_read_at_the_sensor_field<T>(document: Json<T>)
    ensures
        document matches Json::Object(fields) ==> forall|i: int| #[trigger]
            is_first_field(fields@, "sensor_"@, i) ==> match fields@[i].1 {
                Json::Array(rows) => sensor_values(document) == rows_values(rows@),
                _ => sensor_values(document) == Err::<Seq<T>, Refusal>(Refusal::SensorNotArray),
            },
        document matches Json::Object(fields) ==> ((forall|j: int|
            0 <= j < fields@.len() ==> (#[trigger] fields@[j]).0@ != "sensor_"@)
            ==> sensor_values(document) == Err::<Seq<T>, Refusal>(Refusal::MissingSensorKey)),
        !(document is Object) ==> sensor_values(document) == Err::<Seq<T>, Refusal>(
            Refusal::MissingSensorKey,
        ),
{
    fields_are_found_by_name(document, "sensor_"@);
}

} // verus!
