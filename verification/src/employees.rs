//! Employees: those who are badged in somewhere, and those the
//! organisation knows by badge id and name.

use vstd::prelude::*;
use vstd::std_specs::cmp::PartialEqSpecImpl;

verus! {

/// An employee who has badged in, and where (if anywhere) they did so.
#[derive(Debug)]
pub struct EmployeeBadgeIn {
    pub employee_badge_id: String,
    /// `None` indicates not badged in anywhere.
    pub employee_location: Option<String>,
}

/// What a badge-in entry stands for: a badge id and an optional location.
pub struct BadgeView {
    pub id: Seq<char>,
    pub location: Option<Seq<char>>,
}

impl View for EmployeeBadgeIn {
    type V = BadgeView;

    open spec fn view(&self) -> BadgeView {
        BadgeView {
            id: self.employee_badge_id@,
            location: match &self.employee_location {
                Some(l) => Some(l@),
                None => None,
            },
        }
    }
}

impl EmployeeBadgeIn {
    /// An entry for `employee_badge_id` that is not badged in anywhere.
    pub fn new(employee_badge_id: String) -> (r: EmployeeBadgeIn)
        ensures
            r@ == (BadgeView { id: employee_badge_id@, location: None }),
    {
        EmployeeBadgeIn { employee_badge_id: employee_badge_id, employee_location: None }
    }
}

/// Two badge-in entries are the same employee when their badge ids agree;
/// the location plays no part.
impl PartialEq for EmployeeBadgeIn {
    fn eq(&self, other: &EmployeeBadgeIn) -> (r: bool) {
        self.employee_badge_id == other.employee_badge_id
    }
}

impl PartialEqSpecImpl for EmployeeBadgeIn {
    open spec fn obeys_eq_spec() -> bool {
        true
    }

    open spec fn eq_spec(&self, other: &EmployeeBadgeIn) -> bool {
        self.employee_badge_id@ == other.employee_badge_id@
    }
}

/// An employee the organisation knows: a badge id and a name.
#[derive(Debug)]
pub struct EmployeeRecord {
    pub employee_badge_id: String,
    pub employee_name: String,
}

/// What an employee record stands for: badge id and name.
pub struct RecordView {
    pub id: Seq<char>,
    pub name: Seq<char>,
}

impl View for EmployeeRecord {
    type V = RecordView;

    open spec fn view(&self) -> RecordView {
        RecordView { id: self.employee_badge_id@, name: self.employee_name@ }
    }
}

impl EmployeeRecord {
    /// The record of the employee with this badge id and name.
    pub fn new(employee_badge_id: String, employee_name: String) -> (r: EmployeeRecord)
        ensures
            r@ == (RecordView { id: employee_badge_id@, name: employee_name@ }),
    {
        EmployeeRecord { employee_badge_id: employee_badge_id, employee_name: employee_name }
    }
}

/// Two records are the same employee when their badge ids agree.
impl PartialEq for EmployeeRecord {
    fn eq(&self, other: &EmployeeRecord) -> (r: bool) {
        self.employee_badge_id == other.employee_badge_id
    }
}

impl PartialEqSpecImpl for EmployeeRecord {
    open spec fn obeys_eq_spec() -> bool {
        true
    }

    open spec fn eq_spec(&self, other: &EmployeeRecord) -> bool {
        self.employee_badge_id@ == other.employee_badge_id@
    }
}

/// The employee records of a list, as values.
pub open spec fn record_views(list: Seq<EmployeeRecord>) -> Seq<RecordView> {
    list.map_values(|e: EmployeeRecord| e@)
}

/// A CSV row as values: `None` for a row the reader reported an error on,
/// else its fields.
pub type RowView = Option<Seq<Seq<char>>>;

/// The rows, after the header row, that the `csv` crate's `Reader` (made by
/// `Reader::from_reader`, so with a header row and equal-length rows) reads
/// from `data`, in order.
pub uninterp spec fn csv_rows(data: Seq<u8>) -> Seq<RowView>;

/// A row, as a value.
pub open spec fn row_view(row: Option<Vec<String>>) -> RowView {
    match row {
        Some(fields) => Some(fields@.map_values(|f: String| f@)),
        None => None,
    }
}

/// Rows, as values.
pub open spec fn row_views(rows: Seq<Option<Vec<String>>>) -> Seq<RowView> {
    rows.map_values(|r: Option<Vec<String>>| row_view(r))
}

/// Reads `data` with `csv::Reader::from_reader`, walking its `records()`
/// and copying each record's fields into `String`s. Claims only that the
/// rows handed back are `csv_rows(data)`.
#[verifier::external_body]
fn read_csv_rows(data: &[u8]) -> (rows: Vec<Option<Vec<String>>>)
    ensures
        row_views(rows@) == csv_rows(data@),
{
    csv::Reader::from_reader(data).records().map(
        |r| r.ok().map(|rec| rec.iter().map(|f| f.to_string()).collect()),
    ).collect()
}

/// Field `i` of a row, or the empty text where the row is shorter.
pub open spec fn field_or_empty(fields: Seq<Seq<char>>, i: int) -> Seq<char> {
    if 0 <= i < fields.len() {
        fields[i]
    } else {
        seq![]
    }
}

/// The employees a list of rows names: for every row that could be read,
/// in order, the employee whose badge id is its first field and whose name
/// is its second (each the empty text where missing).
pub open spec fn records_of_rows(rows: Seq<RowView>) -> Seq<RecordView>
    decreases rows.len(),
{
    if rows.len() == 0 {
        seq![]
    } else {
        records_of_rows(rows.drop_last()) + match rows.last() {
            Some(fields) => seq![
                RecordView { id: field_or_empty(fields, 0), name: field_or_empty(fields, 1) },
            ],
            None => seq![],
        }
    }
}

/// The employee a readable row names: badge id from the first column and
/// name from the second, the empty text where the row is too short.
pub open spec fn row_employee(row: RowView) -> Option<RecordView> {
    match row {
        Some(f) => Some(
            RecordView {
                id: if f.len() > 0 {
                    f[0]
                } else {
                    seq![]
                },
                name: if f.len() > 1 {
                    f[1]
                } else {
                    seq![]
                },
            },
        ),
        None => None,
    }
}

/// The employees are the readable rows, in order, each read as badge id
/// in the first column and name in the second; unreadable rows are left
/// out, and no other column plays a part.
pub proof fn law_one_employee_per_readable_row(rows: Seq<RowView>)
    ensures
        records_of_rows(rows) == rows.filter_map(|r: RowView| row_employee(r)),
    decreases rows.len(),
{
    if rows.len() > 0 {
        law_one_employee_per_readable_row(rows.drop_last());
    }
}

/// A row of at least two fields names the employee with the first field
/// as badge id and the second as name, whatever the other fields hold.
pub proof fn law_name_is_second_column(rows: Seq<RowView>, fields: Seq<Seq<char>>)
    requires
        fields.len() >= 2,
    ensures
        records_of_rows(seq![Some(fields)]) == seq![RecordView { id: fields[0], name: fields[1] }],
        records_of_rows(rows.push(Some(fields))) == records_of_rows(rows).push(
            RecordView { id: fields[0], name: fields[1] },
        ),
        records_of_rows(rows.push(None)) == records_of_rows(rows),
{
    assert(rows.push(Some(fields)).drop_last() =~= rows);
    assert(rows.push(None).drop_last() =~= rows);
    let single: Seq<RowView> = seq![Some(fields)];
    assert(single.drop_last() =~= Seq::<RowView>::empty());
    assert(single.last() == Some(fields));
    assert(records_of_rows(Seq::<RowView>::empty()) == Seq::<RecordView>::empty());
    assert(records_of_rows(single) =~= seq![RecordView { id: fields[0], name: fields[1] }]);
}

fn field_text(fields: &Vec<String>, i: usize) -> (s: String)
    ensures
        s@ == field_or_empty(fields@.map_values(|f: String| f@), i as int),
{
    if i < fields.len() {
        fields[i].clone()
    } else {
        String::new()
    }
}

/// The employees named by CSV rows; rows that could not be read are skipped.
pub fn employee_records_from_rows(rows: &Vec<Option<Vec<String>>>) -> (records: Vec<
    EmployeeRecord,
>)
    ensures
        record_views(records@) == records_of_rows(row_views(rows@)),
{
    let ghost views = row_views(rows@);
    let mut records: Vec<EmployeeRecord> = Vec::new();
    let mut i: usize = 0;
    while i < rows.len()
        invariant
            i <= rows.len(),
            views == row_views(rows@),
            record_views(records@) == records_of_rows(views.take(i as int)),
        decreases rows.len() - i,
    {
        assert(views.take(i + 1).drop_last() =~= views.take(i as int));
        assert(views.take(i + 1).last() == views[i as int]);
        match &rows[i] {
            Some(fields) => {
                let record = EmployeeRecord::new(field_text(fields, 0), field_text(fields, 1));
                records.push(record);
            },
            None => {},
        }
        assert(record_views(records@) =~= records_of_rows(views.take(i + 1)));
        i = i + 1;
    }
    assert(views.take(rows.len() as int) =~= views);
    records
}

/// The employees listed in a CSV file's contents: a header row, then one
/// row per employee, badge id first and name second. Rows the reader
/// reports an error on are skipped.
pub fn read_employee_records(csv_data: &[u8]) -> (records: Vec<EmployeeRecord>)
    ensures
        record_views(records@) == records_of_rows(csv_rows(csv_data@)),
{
    let rows = read_csv_rows(csv_data);
    employee_records_from_rows(&rows)
}

} // verus!
