//! Conversion between dynamic values and the values that SQLite binds and returns.
//!
//! A byte array crosses the boundary as an array of integers in `0..=255`, one
//! element per byte, in order. A real number is carried as the IEEE-754 bit
//! pattern of its double.
use vstd::prelude::*;

use crate::error::{is_marshalling, Error};

verus! {

/// A JSON-like value as a caller hands it in.
#[derive(Debug)]
pub enum DynamicValue {
    Null,
    Bool(bool),
    /// A number that fits a 64-bit signed integer.
    Integer(i64),
    /// An integer above `i64::MAX`.
    Unsigned(u64),
    /// A number that is not an integer, as the bit pattern of its double.
    Real(u64),
    Text(String),
    Array(Vec<DynamicValue>),
    Object(Vec<(String, DynamicValue)>),
}

/// A value as SQLite binds or returns it.
#[derive(Debug, Clone)]
pub enum SqlValue {
    Null,
    Integer(i64),
    /// A double, as its bit pattern.
    Real(u64),
    Text(String),
    Blob(Vec<u8>),
}

/// Whether a double's bit pattern denotes a finite number (the exponent is not all ones).
pub open spec fn is_finite_bits(bits: u64) -> bool {
    (bits >> 52u64) & 0x7ffu64 != 0x7ffu64
}

/// Whether a dynamic value is one integer in `0..=255`.
pub open spec fn is_byte(v: DynamicValue) -> bool {
    match v {
        DynamicValue::Integer(i) => 0 <= i <= 255,
        _ => false,
    }
}

/// Whether a dynamic value has a native counterpart to be bound as.
pub open spec fn bindable(v: DynamicValue) -> bool {
    match v {
        DynamicValue::Null => true,
        DynamicValue::Integer(_) => true,
        DynamicValue::Real(_) => true,
        DynamicValue::Text(_) => true,
        DynamicValue::Array(a) => forall|i: int| 0 <= i < a@.len() ==> is_byte(#[trigger] a@[i]),
        _ => false,
    }
}

/// Whether `d` and `s` denote the same value on the two sides of the boundary.
pub open spec fn corresponds(d: DynamicValue, s: SqlValue) -> bool {
    match (d, s) {
        (DynamicValue::Null, SqlValue::Null) => true,
        (DynamicValue::Integer(x), SqlValue::Integer(y)) => x == y,
        (DynamicValue::Real(x), SqlValue::Real(y)) => x == y,
        (DynamicValue::Text(x), SqlValue::Text(y)) => x@ == y@,
        (DynamicValue::Array(a), SqlValue::Blob(b)) => a@.len() == b@.len() && forall|i: int|
            0 <= i < b@.len() ==> #[trigger] a@[i] == DynamicValue::Integer(b@[i] as i64),
        _ => false,
    }
}

/// Whether a native value can be read back as a dynamic value.
pub open spec fn readable(s: SqlValue) -> bool {
    match s {
        SqlValue::Real(bits) => is_finite_bits(bits),
        _ => true,
    }
}

/// Equality of two dynamic values as a caller sees them: texts by their characters.
pub open spec fn same_value(a: DynamicValue, b: DynamicValue) -> bool {
    match (a, b) {
        (DynamicValue::Text(x), DynamicValue::Text(y)) => x@ == y@,
        (DynamicValue::Array(x), DynamicValue::Array(y)) => x@ == y@,
        _ => a == b,
    }
}

/// The text of the error for parameter `name`, whose value has the textual form `text`.
pub open spec fn unbindable_text(name: Seq<char>, text: Seq<char>) -> Seq<char> {
    "("@ + name + ": "@ + text + ")"@
}

/// The text of the error for a real read back that is not finite.
pub open spec fn non_finite_text() -> Seq<char> {
    "non-finite real value"@
}

/// Converts a dynamic array into bytes, or `None` where an element is no byte.
fn bytes_of(a: &Vec<DynamicValue>) -> (r: Option<Vec<u8>>)
    ensures
        r is Some <==> forall|i: int| 0 <= i < a@.len() ==> is_byte(#[trigger] a@[i]),
        r matches Some(b) ==> corresponds(DynamicValue::Array(*a), SqlValue::Blob(b)),
{
    let mut out: Vec<u8> = Vec::new();
    let mut i: usize = 0;
    while i < a.len()
        invariant
            i <= a@.len(),
            out@.len() == i,
            forall|j: int| 0 <= j < i ==> is_byte(#[trigger] a@[j]),
            forall|j: int| 0 <= j < i ==> #[trigger] a@[j] == DynamicValue::Integer(out@[j] as i64),
        decreases a@.len() - i,
    {
        match &a[i] {
            DynamicValue::Integer(x) => {
                if 0 <= *x && *x <= 255 {
                    out.push(*x as u8);
                } else {
                    return None;
                }
            },
            _ => {
                return None;
            },
        }
        i = i + 1;
    }
    Some(out)
}

/// A named bind parameter: the placeholder name, the value, and the value's
/// textual form as the caller writes it (its JSON text), used to report it.
pub struct Parameter {
    pub name: String,
    pub value: DynamicValue,
    pub text: String,
}

/// Converts one dynamic value into the native value bound for parameter `name`;
/// `text` is the value's textual form, which the error for an unbindable value shows.
pub fn bind_value(name: &String, value: &DynamicValue, text: &String) -> (r: Result<SqlValue, Error>)
    ensures
        r is Ok <==> bindable(*value),
        r matches Ok(s) ==> corresponds(*value, s),
        r matches Err(e) ==> is_marshalling(e, unbindable_text(name@, text@)),
{
    match value {
        DynamicValue::Null => {
            return Ok(SqlValue::Null);
        },
        DynamicValue::Integer(i) => {
            return Ok(SqlValue::Integer(*i));
        },
        DynamicValue::Real(bits) => {
            return Ok(SqlValue::Real(*bits));
        },
        DynamicValue::Text(s) => {
            return Ok(SqlValue::Text(s.clone()));
        },
        DynamicValue::Array(a) => {
            match bytes_of(a) {
                Some(b) => {
                    return Ok(SqlValue::Blob(b));
                },
                None => {},
            }
        },
        _ => {},
    }
    let message = String::from_str("(").concat(name.as_str()).concat(": ").concat(
        text.as_str(),
    ).concat(")");
    Err(Error::Marshalling(message))
}


/// Converts named parameters into the native values bound for them, in order.
/// Fails on the first parameter whose value has no native counterpart.
pub fn create_parameters(parameters: &Vec<Parameter>) -> (r: Result<
    Vec<(String, SqlValue)>,
    Error,
>)
    ensures
        r is Ok <==> forall|i: int| 0 <= i < parameters@.len() ==> bindable(#[trigger] parameters@[i].value),
        r matches Ok(out) ==> {
            &&& out@.len() == parameters@.len()
            &&& forall|i: int|
                0 <= i < out@.len() ==> (#[trigger] out@[i]).0@ == parameters@[i].name@ && corresponds(
                    parameters@[i].value,
                    out@[i].1,
                )
        },
        r matches Err(e) ==> exists|i: int|
            0 <= i < parameters@.len() && !bindable(#[trigger] parameters@[i].value) && (forall|j: int|
                0 <= j < i ==> bindable(#[trigger] parameters@[j].value)) && is_marshalling(
                e,
                unbindable_text(parameters@[i].name@, parameters@[i].text@),
            ),
{
    let mut out: Vec<(String, SqlValue)> = Vec::new();
    let mut i: usize = 0;
    while i < parameters.len()
        invariant
            i <= parameters@.len(),
            out@.len() == i,
            forall|j: int| 0 <= j < i ==> bindable(#[trigger] parameters@[j].value),
            forall|j: int|
                0 <= j < i ==> (#[trigger] out@[j]).0@ == parameters@[j].name@ && corresponds(
                    parameters@[j].value,
                    out@[j].1,
                ),
        decreases parameters@.len() - i,
    {
        let p = &parameters[i];
        match bind_value(&p.name, &p.value, &p.text) {
            Ok(s) => {
                out.push((p.name.clone(), s));
            },
            Err(e) => {
                return Err(e);
            },
        }
        i = i + 1;
    }
    Ok(out)
}

/// Reads a native column value back as a dynamic value; a blob becomes an array
/// of byte integers. A real that is not finite has no dynamic counterpart.
pub fn from_column(column: &SqlValue) -> (r: Result<DynamicValue, Error>)
    ensures
        r is Ok <==> readable(*column),
        r matches Ok(d) ==> corresponds(d, *column),
        r matches Err(e) ==> is_marshalling(e, non_finite_text()),
{
    match column {
        SqlValue::Null => Ok(DynamicValue::Null),
        SqlValue::Integer(i) => Ok(DynamicValue::Integer(*i)),
        SqlValue::Real(bits) => {
            if (*bits >> 52u64) & 0x7ffu64 != 0x7ffu64 {
                Ok(DynamicValue::Real(*bits))
            } else {
                Err(Error::Marshalling(String::from_str("non-finite real value")))
            }
        },
        SqlValue::Text(s) => Ok(DynamicValue::Text(s.clone())),
        SqlValue::Blob(b) => {
            let mut a: Vec<DynamicValue> = Vec::new();
            let mut i: usize = 0;
            while i < b.len()
                invariant
                    i <= b@.len(),
                    a@.len() == i,
                    forall|j: int| 0 <= j < i ==> #[trigger] a@[j] == DynamicValue::Integer(b@[j] as i64),
                decreases b@.len() - i,
            {
                a.push(DynamicValue::Integer(b[i] as i64));
                i = i + 1;
            }
            Ok(DynamicValue::Array(a))
        },
    }
}

/// Converting a bindable value out and reading the stored value back yields the
/// same value: a blob comes back as the same bytes, expressed as integers.
pub proof fn lemma_round_trip(v: DynamicValue, s: SqlValue, d: DynamicValue)
    requires
        bindable(v),
        corresponds(v, s),
        corresponds(d, s),
    ensures
        readable(s) <==> (v matches DynamicValue::Real(bits) ==> is_finite_bits(bits)),
        same_value(v, d),
{
    match (v, d) {
        (DynamicValue::Array(x), DynamicValue::Array(y)) => {
            assert(x@ =~= y@);
        },
        _ => {},
    }
}

/// Whether no two entries of a row share a name.
pub open spec fn names_unique(row: Seq<(String, DynamicValue)>) -> bool {
    forall|a: int, b: int|
        0 <= a < b < row.len() ==> (#[trigger] row[a]).0@ != (#[trigger] row[b]).0@
}

/// Whether some entry of the row has the name `name`.
pub open spec fn has_name(row: Seq<(String, DynamicValue)>, name: Seq<char>) -> bool {
    exists|k: int| 0 <= k < row.len() && (#[trigger] row[k]).0@ == name
}

/// Whether every column name has an entry in the row.
pub open spec fn names_covered(row: Seq<(String, DynamicValue)>, names: Seq<String>) -> bool {
    forall|j: int| 0 <= j < names.len() ==> has_name(row, (#[trigger] names[j])@)
}

/// Whether column `j` is the last of that name and entry `e` holds its name and value.
pub open spec fn from_last_column(
    e: (String, DynamicValue),
    names: Seq<String>,
    columns: Seq<SqlValue>,
    j: int,
) -> bool {
    &&& 0 <= j < names.len()
    &&& e.0@ == names[j]@
    &&& corresponds(e.1, columns[j])
    &&& forall|i: int| j < i < names.len() ==> (#[trigger] names[i])@ != names[j]@
}

/// Whether entry `e` comes from the last column of its name.
pub open spec fn has_source(e: (String, DynamicValue), names: Seq<String>, columns: Seq<SqlValue>) -> bool {
    exists|j: int| #[trigger] from_last_column(e, names, columns, j)
}

/// Whether column `i` is the first column named `name`.
pub open spec fn is_first_column(names: Seq<String>, name: Seq<char>, i: int) -> bool {
    &&& 0 <= i < names.len()
    &&& names[i]@ == name
    &&& forall|j: int| 0 <= j < i ==> (#[trigger] names[j])@ != name
}

/// Whether the entries of `row` come in the order in which their names first
/// occur among the columns.
pub open spec fn in_first_occurrence_order(row: Seq<(String, DynamicValue)>, names: Seq<String>) -> bool {
    forall|a: int, b: int, ia: int, ib: int|
        0 <= a < b < row.len() && #[trigger] is_first_column(names, row[a].0@, ia)
            && #[trigger] is_first_column(names, row[b].0@, ib) ==> ia < ib
}

/// Whether `row` maps the column names to their values as a result row does:
/// each name once, each with the value of the last column of that name.
pub open spec fn is_row_of(
    row: Seq<(String, DynamicValue)>,
    names: Seq<String>,
    columns: Seq<SqlValue>,
) -> bool {
    &&& names_unique(row)
    &&& names_covered(row, names)
    &&& forall|k: int| 0 <= k < row.len() ==> has_source(#[trigger] row[k], names, columns)
}

/// Reads one result row: the columns' values keyed by their names. Where a name
/// repeats, the last column of that name gives the value.
pub fn row_from_columns(names: &Vec<String>, columns: &Vec<SqlValue>) -> (r: Result<
    Vec<(String, DynamicValue)>,
    Error,
>)
    requires
        names@.len() == columns@.len(),
    ensures
        r is Ok <==> forall|j: int| 0 <= j < columns@.len() ==> readable(#[trigger] columns@[j]),
        r matches Ok(row) ==> is_row_of(row@, names@, columns@),
        r matches Ok(row) ==> in_first_occurrence_order(row@, names@),
        r matches Err(e) ==> is_marshalling(e, non_finite_text()),
{
    let mut row: Vec<(String, DynamicValue)> = Vec::new();
    // `source[k]` is the column that gave entry `k`; `place[i]` is the entry named by column `i`.
    let ghost mut source: Seq<int> = Seq::empty();
    let ghost mut place: Seq<int> = Seq::empty();
    // `first[k]` is the first column named like entry `k`.
    let ghost mut first: Seq<int> = Seq::empty();
    let mut j: usize = 0;
    while j < columns.len()
        invariant
            j <= columns@.len(),
            names@.len() == columns@.len(),
            source.len() == row@.len(),
            place.len() == j,
            first.len() == row@.len(),
            forall|k: int| 0 <= k < row@.len() ==> 0 <= #[trigger] first[k] < j && is_first_column(names@, row@[k].0@, first[k]),
            forall|a: int, b: int| 0 <= a < b < row@.len() ==> #[trigger] first[a] < #[trigger] first[b],
            forall|i: int| 0 <= i < j ==> readable(#[trigger] columns@[i]),
            forall|a: int, b: int|
                0 <= a < b < row@.len() ==> (#[trigger] row@[a]).0@ != (#[trigger] row@[b]).0@,
            forall|i: int|
                0 <= i < j ==> 0 <= #[trigger] place[i] < row@.len() && row@[place[i]].0@
                    == names@[i]@,
            forall|k: int|
                0 <= k < row@.len() ==> {
                    &&& 0 <= #[trigger] source[k] < j
                    &&& row@[k].0@ == names@[source[k]]@
                    &&& corresponds(row@[k].1, columns@[source[k]])
                    &&& forall|i: int| source[k] < i < j ==> (#[trigger] names@[i])@ != row@[k].0@
                },
        decreases columns@.len() - j,
    {
        let value = match from_column(&columns[j]) {
            Ok(d) => d,
            Err(e) => {
                return Err(e);
            },
        };
        let name = &names[j];
        let mut k: usize = 0;
        while k < row.len()
            invariant
                k <= row@.len(),
                forall|a: int| 0 <= a < k ==> (#[trigger] row@[a]).0@ != name@,
            ensures
                k <= row@.len(),
                k < row@.len() ==> row@[k as int].0@ == name@,
                forall|a: int| 0 <= a < k ==> (#[trigger] row@[a]).0@ != name@,
            decreases row@.len() - k,
        {
            if row[k].0 == *name {
                break;
            }
            k = k + 1;
        }
        if k < row.len() {
            row.set(k, (name.clone(), value));
            proof {
                source = source.update(k as int, j as int);
                place = place.push(k as int);
            }
        } else {
            let ghost old_row = row@;
            row.push((name.clone(), value));
            proof {
                source = source.push(j as int);
                place = place.push(k as int);
                first = first.push(j as int);
                assert forall|i: int| 0 <= i < j implies (#[trigger] names@[i])@ != name@ by {
                    assert(old_row[place[i]].0@ == names@[i]@);
                }
            }
        }
        j = j + 1;
    }
    proof {
        assert forall|k: int| 0 <= k < row@.len() implies has_source(
            #[trigger] row@[k],
            names@,
            columns@,
        ) by {
            assert(from_last_column(row@[k], names@, columns@, source[k]));
        }
        assert forall|i: int| 0 <= i < names@.len() implies has_name(
            row@,
            (#[trigger] names@[i])@,
        ) by {
            assert(row@[place[i]].0@ == names@[i]@);
        }
        assert forall|a: int, b: int, ia: int, ib: int|
            0 <= a < b < row@.len() && #[trigger] is_first_column(names@, row@[a].0@, ia)
                && #[trigger] is_first_column(names@, row@[b].0@, ib) implies ia < ib by {
            if ia < first[a] {
                assert(names@[ia]@ != row@[a].0@);
            }
            if first[a] < ia {
                assert(names@[first[a]]@ != row@[a].0@);
            }
            if ib < first[b] {
                assert(names@[ib]@ != row@[b].0@);
            }
            if first[b] < ib {
                assert(names@[first[b]]@ != row@[b].0@);
            }
        }
    }
    Ok(row)
}

} // verus!
