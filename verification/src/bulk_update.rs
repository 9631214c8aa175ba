//! Bulk imports: the donation-export CSV upload and the donation-API
//! backfill.
//!
//! Both are operator-gated: the operator must retype their own account
//! email, and a mismatch is a client error raised before anything is read.
//!
//! The CSV path parses the whole export up front and fails closed: one
//! malformed row aborts the import with nothing written. Rows not
//! representing a completed charge are silently skipped. Providers export
//! newest-first, so rows are replayed in reverse file order — oldest
//! first — and the earliest charge for an unknown email is the one that
//! creates the member.
//!
//! The API backfill, in contrast, aggregates: each malformed event
//! contributes an error string, each applicable donation is applied, and
//! the summary reports both; one bad event does not abort the batch.

use vstd::prelude::*;

use vstd::string::StringSliceAdditionalSpecFns;

use crate::amount::{all_digits, digits_val, spec_parse_amount, Amount};
use crate::auth::email_confirmed;
use crate::csv_table::csv_rows;
use crate::dates::{export_datetime_ok, spec_date_of, Date};
use crate::ledger::{find_email_from, Ledger, LedgerV, MemberV, PaymentV};
use crate::text::normalize_email_bytes;

verus! {

/// Why a bulk import was refused.
#[derive(Clone, Copy, PartialEq, Eq, Structural, Debug)]
pub enum ImportError {
    /// The typed confirmation does not match the session email.
    EmailMismatch,
    /// No CSV file was uploaded.
    MissingFile,
    /// A required column is absent from the export's header row.
    MissingColumn,
    /// A data row could not be parsed; nothing was imported.
    BadRow,
    /// The import would overflow the store's id space.
    TooLarge,
    /// No start date was supplied for the backfill.
    MissingStartDate,
}

/// Counts reported by the CSV import.
#[derive(Clone, Copy, PartialEq, Eq, Structural, Debug)]
pub struct BulkSummary {
    pub members_added: u32,
    pub payments_added: u32,
}

/// One parsed export row, in file order.
pub struct GivingFuelDonationRow {
    pub transaction_id: i32,
    pub total: Option<Amount>,
    pub payment_date: Date,
    pub status: Vec<u8>,
    pub transaction_type: Vec<u8>,
    pub first_name: Vec<u8>,
    pub last_name: Vec<u8>,
    pub email: Vec<u8>,
}

/// Mathematical image of one export row.
#[verifier::ext_equal]
pub struct GfRowV {
    pub transaction_id: int,
    pub total: Option<Amount>,
    pub payment_date: Date,
    pub status: Seq<u8>,
    pub transaction_type: Seq<u8>,
    pub first_name: Seq<u8>,
    pub last_name: Seq<u8>,
    pub email: Seq<u8>,
}

impl View for GivingFuelDonationRow {
    type V = GfRowV;

    open spec fn view(&self) -> GfRowV {
        GfRowV {
            transaction_id: self.transaction_id as int,
            total: self.total,
            payment_date: self.payment_date,
            status: self.status@,
            transaction_type: self.transaction_type@,
            first_name: self.first_name@,
            last_name: self.last_name@,
            email: self.email@,
        }
    }
}

/// Positions of the eight consumed columns in the header row.
#[verifier::ext_equal]
pub struct GfColumns {
    pub transaction_id: int,
    pub total: int,
    pub payment_date: int,
    pub status: int,
    pub transaction_type: int,
    pub first_name: int,
    pub last_name: int,
    pub email: int,
}

/// Same positions as machine indices.
pub struct GfColumnIdx {
    pub transaction_id: usize,
    pub total: usize,
    pub payment_date: usize,
    pub status: usize,
    pub transaction_type: usize,
    pub first_name: usize,
    pub last_name: usize,
    pub email: usize,
}

impl View for GfColumnIdx {
    type V = GfColumns;

    open spec fn view(&self) -> GfColumns {
        GfColumns {
            transaction_id: self.transaction_id as int,
            total: self.total as int,
            payment_date: self.payment_date as int,
            status: self.status as int,
            transaction_type: self.transaction_type as int,
            first_name: self.first_name as int,
            last_name: self.last_name as int,
            email: self.email as int,
        }
    }
}

/// Index of the first header equal to `name`, scanning from `i`.
pub open spec fn find_field(headers: Seq<Seq<u8>>, name: Seq<u8>, i: int) -> Option<int>
    decreases headers.len() - i,
{
    if i < 0 || i >= headers.len() {
        None
    } else if headers[i] == name {
        Some(i)
    } else {
        find_field(headers, name, i + 1)
    }
}

proof fn lemma_find_field_step(headers: Seq<Seq<u8>>, name: Seq<u8>, i: int)
    requires
        0 <= i < headers.len(),
        headers[i] != name,
    ensures
        find_field(headers, name, i) == find_field(headers, name, i + 1),
{
}

/// The eight column positions, or `None` when any column is missing.
pub open spec fn spec_columns(headers: Seq<Seq<u8>>) -> Option<GfColumns> {
    let ti = find_field(headers, "Transaction ID".spec_bytes(), 0);
    let to = find_field(headers, "Total Paid ($ Amount)".spec_bytes(), 0);
    let pd = find_field(headers, "Payment Date".spec_bytes(), 0);
    let st = find_field(headers, "Status".spec_bytes(), 0);
    let tt = find_field(headers, "Transaction Type".spec_bytes(), 0);
    let fnm = find_field(headers, "Billing Name (First Name)".spec_bytes(), 0);
    let lnm = find_field(headers, "Billing Name (Last Name)".spec_bytes(), 0);
    let em = find_field(headers, "Billing Email Address".spec_bytes(), 0);
    if ti is Some && to is Some && pd is Some && st is Some && tt is Some && fnm is Some && lnm
        is Some && em is Some {
        Some(
            GfColumns {
                transaction_id: ti->0,
                total: to->0,
                payment_date: pd->0,
                status: st->0,
                transaction_type: tt->0,
                first_name: fnm->0,
                last_name: lnm->0,
                email: em->0,
            },
        )
    } else {
        None
    }
}

/// A provider transaction id: one through nine decimal digits.
pub open spec fn spec_parse_tid(s: Seq<u8>) -> Option<int> {
    if 1 <= s.len() <= 9 && all_digits(s) {
        Some(digits_val(s))
    } else {
        None
    }
}

/// One data row against the header: the field count must match, the
/// transaction id must be numeric, the amount (when present) well-formed,
/// and the payment date in the export's datetime format.
pub open spec fn spec_parse_row(cols: GfColumns, hlen: int, fields: Seq<Seq<u8>>) -> Option<
    GfRowV,
> {
    if fields.len() != hlen {
        None
    } else {
        let tid = spec_parse_tid(fields[cols.transaction_id]);
        let total_f = fields[cols.total];
        let date_f = fields[cols.payment_date];
        if tid is None {
            None
        } else if total_f.len() > 0 && spec_parse_amount(total_f) is None {
            None
        } else if !export_datetime_ok(date_f) {
            None
        } else {
            Some(
                GfRowV {
                    transaction_id: tid->0,
                    total: if total_f.len() == 0 {
                        None
                    } else {
                        Some(Amount { cents: spec_parse_amount(total_f)->0 as u64 })
                    },
                    payment_date: spec_date_of(date_f),
                    status: fields[cols.status],
                    transaction_type: fields[cols.transaction_type],
                    first_name: fields[cols.first_name],
                    last_name: fields[cols.last_name],
                    email: fields[cols.email],
                },
            )
        }
    }
}

/// Element views of a vector of byte-fields.
proof fn lemma_fields_views(v: &Vec<Vec<u8>>)
    ensures
        v.deep_view().len() == v@.len(),
        forall|k: int| 0 <= k < v@.len() ==> #[trigger] v.deep_view()[k] == v@[k]@,
{
}

/// Finds one named column in the header row.
fn find_column(headers: &Vec<Vec<u8>>, name: &str) -> (r: Option<usize>)
    ensures
        match r {
            Some(i) => find_field(headers.deep_view(), name.spec_bytes(), 0) == Some(i as int) && i
                < headers@.len(),
            None => find_field(headers.deep_view(), name.spec_bytes(), 0) is None,
        },
{
    proof {
        lemma_fields_views(headers);
    }
    let name_bytes = name.as_bytes();
    let mut i: usize = 0;
    while i < headers.len()
        invariant
            0 <= i <= headers@.len(),
            headers.deep_view().len() == headers@.len(),
            forall|k: int| 0 <= k < headers@.len() ==> #[trigger] headers.deep_view()[k]
                == headers@[k]@,
            name_bytes@ == name.spec_bytes(),
            find_field(headers.deep_view(), name.spec_bytes(), 0) == find_field(
                headers.deep_view(),
                name.spec_bytes(),
                i as int,
            ),
        decreases headers.len() - i,
    {
        if crate::text::bytes_eq(headers[i].as_slice(), name_bytes) {
            return Some(i);
        }
        proof {
            lemma_find_field_step(headers.deep_view(), name.spec_bytes(), i as int);
        }
        i += 1;
    }
    None
}

/// Resolves all eight column positions.
fn resolve_columns(headers: &Vec<Vec<u8>>) -> (r: Option<GfColumnIdx>)
    ensures
        match r {
            Some(c) => spec_columns(headers.deep_view()) == Some(c@) && c.transaction_id
                < headers@.len() && c.total < headers@.len() && c.payment_date < headers@.len()
                && c.status < headers@.len() && c.transaction_type < headers@.len()
                && c.first_name < headers@.len() && c.last_name < headers@.len() && c.email
                < headers@.len(),
            None => spec_columns(headers.deep_view()) is None,
        },
{
    let ti = find_column(headers, "Transaction ID");
    let to = find_column(headers, "Total Paid ($ Amount)");
    let pd = find_column(headers, "Payment Date");
    let st = find_column(headers, "Status");
    let tt = find_column(headers, "Transaction Type");
    let fnm = find_column(headers, "Billing Name (First Name)");
    let lnm = find_column(headers, "Billing Name (Last Name)");
    let em = find_column(headers, "Billing Email Address");
    match (ti, to, pd, st, tt, fnm, lnm, em) {
        (
            Some(ti),
            Some(to),
            Some(pd),
            Some(st),
            Some(tt),
            Some(fnm),
            Some(lnm),
            Some(em),
        ) => Some(
            GfColumnIdx {
                transaction_id: ti,
                total: to,
                payment_date: pd,
                status: st,
                transaction_type: tt,
                first_name: fnm,
                last_name: lnm,
                email: em,
            },
        ),
        _ => None,
    }
}

/// Parses one data row against the resolved columns.
fn parse_row(cols: &GfColumnIdx, headers_len: usize, fields: &Vec<Vec<u8>>) -> (r: Option<
    GivingFuelDonationRow,
>)
    requires
        cols.transaction_id < headers_len,
        cols.total < headers_len,
        cols.payment_date < headers_len,
        cols.status < headers_len,
        cols.transaction_type < headers_len,
        cols.first_name < headers_len,
        cols.last_name < headers_len,
        cols.email < headers_len,
    ensures
        match r {
            Some(row) => spec_parse_row(cols@, headers_len as int, fields.deep_view()) == Some(
                row@,
            ),
            None => spec_parse_row(cols@, headers_len as int, fields.deep_view()) is None,
        },
{
    proof {
        lemma_fields_views(fields);
    }
    if fields.len() != headers_len {
        return None;
    }
    let tid_field = &fields[cols.transaction_id];
    if tid_field.len() < 1 || tid_field.len() > 9 {
        return None;
    }
    if !crate::amount::check_digits(tid_field.as_slice(), 0, tid_field.len()) {
        proof {
            assert(tid_field@.subrange(0, tid_field@.len() as int) =~= tid_field@);
        }
        return None;
    }
    proof {
        assert(tid_field@.subrange(0, tid_field@.len() as int) =~= tid_field@);
        crate::amount::lemma_digits_val_bound(tid_field@);
        crate::amount::lemma_pow10_mono(tid_field@.len() as int, 9);
        assert(crate::amount::pow10(9) == 1000000000) by {
            reveal_with_fuel(crate::amount::pow10, 10);
        }
    }
    let tid = crate::amount::digits_value(tid_field.as_slice(), 0, tid_field.len());
    let total_field = &fields[cols.total];
    let total: Option<Amount> = if total_field.len() == 0 {
        None
    } else {
        match Amount::parse(total_field.as_slice()) {
            Some(a) => Some(a),
            None => {
                return None;
            },
        }
    };
    let date_field = &fields[cols.payment_date];
    let payment_date = match crate::dates::parse_export_datetime_date(date_field.as_slice()) {
        Some(d) => d,
        None => {
            return None;
        },
    };
    Some(
        GivingFuelDonationRow {
            transaction_id: tid as i32,
            total,
            payment_date,
            status: fields[cols.status].clone(),
            transaction_type: fields[cols.transaction_type].clone(),
            first_name: fields[cols.first_name].clone(),
            last_name: fields[cols.last_name].clone(),
            email: fields[cols.email].clone(),
        },
    )
}

/// Policy filter: only completed charges carrying an amount are imported;
/// anything else is skipped silently, with no row written and no error.
pub open spec fn row_applicable(r: GfRowV) -> bool {
    &&& r.status == "completed".spec_bytes()
    &&& r.transaction_type == "charge".spec_bytes()
    &&& r.total is Some
}

/// The canonical identity key of the row's payer.
pub open spec fn row_member_key(r: GfRowV) -> Seq<u8> {
    normalize_email_bytes(r.email)
}

/// The member row an unknown payer's earliest charge creates.
pub open spec fn csv_member_row(l: LedgerV, r: GfRowV) -> MemberV {
    MemberV {
        id: l.members.len() as int + 1,
        email: row_member_key(r),
        first_name: r.first_name,
        last_name: r.last_name,
    }
}

/// Id of the member the row's payment lands on.
pub open spec fn csv_target_id(l: LedgerV, r: GfRowV) -> int {
    match find_email_from(l.members, row_member_key(r), 0) {
        Some(i) => l.members[i].id,
        None => l.members.len() as int + 1,
    }
}

/// The payment row one export row inserts: effective on the export's
/// payment date, the export total, and the provider transaction id.
pub open spec fn csv_payment(r: GfRowV, id: int, member_id: int) -> PaymentV {
    PaymentV {
        id,
        member_id,
        effective_on: Some(r.payment_date),
        duration_months: 1,
        amount_paid: r.total->0,
        payment_method: "webconnex".spec_bytes(),
        platform: None,
        transaction_id: Some(r.transaction_id),
        notes: None,
    }
}

/// Store state after one export row: unchanged when filtered out, else
/// member insert-if-absent plus one payment row.
pub open spec fn apply_row(l: LedgerV, r: GfRowV) -> LedgerV {
    if !row_applicable(r) {
        l
    } else {
        LedgerV {
            members: match find_email_from(l.members, row_member_key(r), 0) {
                Some(_) => l.members,
                None => l.members.push(csv_member_row(l, r)),
            },
            payments: l.payments.push(
                csv_payment(r, l.payments.len() as int + 1, csv_target_id(l, r)),
            ),
        }
    }
}

/// Rows applied first-to-last. The import passes the parsed rows here in
/// reverse file order, replaying the newest-first export oldest-first.
pub open spec fn apply_rows(l: LedgerV, rows: Seq<GfRowV>) -> LedgerV
    decreases rows.len(),
{
    if rows.len() == 0 {
        l
    } else {
        apply_row(apply_rows(l, rows.drop_last()), rows.last())
    }
}

/// How many rows pass the completed-charge filter.
pub open spec fn applicable_count(rows: Seq<GfRowV>) -> int
    decreases rows.len(),
{
    if rows.len() == 0 {
        0
    } else {
        applicable_count(rows.drop_last()) + if row_applicable(rows.last()) {
            1int
        } else {
            0int
        }
    }
}

/// Element views of the parsed table.
proof fn lemma_table_views(v: &Vec<Vec<Vec<u8>>>)
    ensures
        v.deep_view().len() == v@.len(),
        forall|k: int| 0 <= k < v@.len() ==> #[trigger] v.deep_view()[k] == v@[k].deep_view(),
{
}

/// Element views of the parsed rows.
proof fn lemma_rows_views(s: Seq<GivingFuelDonationRow>)
    ensures
        s.map_values(|r: GivingFuelDonationRow| r@).len() == s.len(),
        forall|k: int|
            0 <= k < s.len() ==> s.map_values(|r: GivingFuelDonationRow| r@)[k] == (
            #[trigger] s[k])@,
{
}

/// The store is append-only across a whole import: every member and every
/// payment row present before is still present, unchanged and in place,
/// after any sequence of rows is applied. Members are never deleted or
/// recreated, and payments are immutable once written.
pub proof fn lemma_apply_rows_append_only(l: LedgerV, rows: Seq<GfRowV>)
    ensures
        l.members.len() <= apply_rows(l, rows).members.len(),
        forall|i: int|
            0 <= i < l.members.len() ==> #[trigger] apply_rows(l, rows).members[i] == l.members[i],
        l.payments.len() <= apply_rows(l, rows).payments.len(),
        forall|i: int|
            0 <= i < l.payments.len() ==> #[trigger] apply_rows(l, rows).payments[i]
                == l.payments[i],
    decreases rows.len(),
{
    if rows.len() > 0 {
        lemma_apply_rows_append_only(l, rows.drop_last());
        let prev = apply_rows(l, rows.drop_last());
        let next = apply_row(prev, rows.last());
        assert(forall|i: int|
            0 <= i < prev.members.len() ==> #[trigger] next.members[i] == prev.members[i]);
        assert(forall|i: int|
            0 <= i < prev.payments.len() ==> #[trigger] next.payments[i] == prev.payments[i]);
    }
}

/// A row that is not a completed charge writes nothing: skipping it is
/// not an error and leaves the store exactly as it was.
pub proof fn lemma_skipped_row_writes_nothing(l: LedgerV, r: GfRowV)
    requires
        !row_applicable(r),
    ensures
        apply_row(l, r) == l,
{
}

/// The CSV bulk import.
///
/// Gated by the operator email confirmation, which is checked before
/// anything is read. The upload is parsed in full; one malformed row
/// fails the whole import with nothing written. Valid rows are replayed
/// in reverse file order inside one atomic application.
pub fn submit_givingfuel_bulk_update(
    ledger: &mut Ledger,
    user: &crate::auth::Jwt,
    email_verify: Option<&String>,
    csv_text: Option<&Vec<u8>>,
) -> (r: Result<BulkSummary, ImportError>)
    requires
        old(ledger).wf(),
    ensures
        final(ledger).wf(),
        !email_confirmed(*user, email_verify) ==> final(ledger)@ == old(ledger)@ && r == Result::<
            BulkSummary,
            ImportError,
        >::Err(ImportError::EmailMismatch),
        email_confirmed(*user, email_verify) && csv_text is None ==> final(ledger)@ == old(
            ledger,
        )@ && r == Result::<BulkSummary, ImportError>::Err(ImportError::MissingFile),
        email_confirmed(*user, email_verify) && csv_text is Some ==> ({
            let table = csv_rows(csv_text->0@);
            if table.len() <= 1 {
                final(ledger)@ == old(ledger)@ && r == Result::<BulkSummary, ImportError>::Ok(
                    (BulkSummary { members_added: 0, payments_added: 0 }),
                )
            } else {
                match spec_columns(table[0]) {
                    None => final(ledger)@ == old(ledger)@ && r == Result::<
                        BulkSummary,
                        ImportError,
                    >::Err(ImportError::MissingColumn),
                    Some(cols) => {
                        let hlen = table[0].len() as int;
                        let data = table.subrange(1, table.len() as int);
                        if exists|k: int|
                            0 <= k < data.len() && (#[trigger] spec_parse_row(
                                cols,
                                hlen,
                                data[k],
                            )) is None {
                            final(ledger)@ == old(ledger)@ && r == Result::<
                                BulkSummary,
                                ImportError,
                            >::Err(ImportError::BadRow)
                        } else {
                            let parsed = Seq::new(
                                data.len(),
                                |k: int| spec_parse_row(cols, hlen, data[k])->0,
                            );
                            if old(ledger)@.members.len() + data.len() >= 0x7fff_ffff || old(
                                ledger,
                            )@.payments.len() + data.len() >= 0x7fff_ffff {
                                final(ledger)@ == old(ledger)@ && r == Result::<
                                    BulkSummary,
                                    ImportError,
                                >::Err(ImportError::TooLarge)
                            } else {
                                &&& final(ledger)@ == apply_rows(old(ledger)@, parsed.reverse())
                                &&& r is Ok
                                &&& r->Ok_0.payments_added as int == applicable_count(
                                    parsed.reverse(),
                                )
                                &&& r->Ok_0.members_added as int == final(ledger)@.members.len()
                                    - old(ledger)@.members.len()
                            }
                        }
                    },
                }
            }
        }),
{
    if !crate::auth::verify_email_confirmation(user, email_verify) {
        return Err(ImportError::EmailMismatch);
    }
    let text = match csv_text {
        Some(t) => t,
        None => {
            return Err(ImportError::MissingFile);
        },
    };
    let table = crate::csv_table::parse_csv(text.as_slice());
    proof {
        lemma_table_views(&table);
    }
    if table.len() <= 1 {
        return Ok(BulkSummary { members_added: 0, payments_added: 0 });
    }
    let ghost tdv = table.deep_view();
    let ghost data = tdv.subrange(1, tdv.len() as int);
    let headers = &table[0];
    let cols = match resolve_columns(headers) {
        Some(c) => c,
        None => {
            return Err(ImportError::MissingColumn);
        },
    };
    let headers_len = headers.len();
    let ghost colsv = cols@;
    let ghost hlen = headers_len as int;
    let mut parsed: Vec<GivingFuelDonationRow> = Vec::new();
    let mut j: usize = 1;
    while j < table.len()
        invariant
            ledger.wf(),
            ledger@ == old(ledger)@,
            email_confirmed(*user, email_verify),
            csv_text is Some,
            tdv == csv_rows(csv_text->0@),
            tdv.len() > 1,
            spec_columns(tdv[0]) == Some(colsv),
            1 <= j <= table@.len(),
            table@.len() == tdv.len(),
            tdv == table.deep_view(),
            data == tdv.subrange(1, tdv.len() as int),
            hlen == tdv[0].len(),
            headers_len as int == hlen,
            cols@ == colsv,
            cols.transaction_id < headers_len,
            cols.total < headers_len,
            cols.payment_date < headers_len,
            cols.status < headers_len,
            cols.transaction_type < headers_len,
            cols.first_name < headers_len,
            cols.last_name < headers_len,
            cols.email < headers_len,
            forall|k: int|
                0 <= k < j - 1 ==> (#[trigger] spec_parse_row(colsv, hlen, data[k])) is Some,
            parsed@.map_values(|row: GivingFuelDonationRow| row@) == Seq::new(
                (j - 1) as nat,
                |k: int| spec_parse_row(colsv, hlen, data[k])->0,
            ),
        decreases table.len() - j,
    {
        proof {
            lemma_table_views(&table);
            assert(data[j - 1] == tdv[j as int]);
        }
        let row = match parse_row(&cols, headers_len, &table[j]) {
            Some(row) => row,
            None => {
                assert(spec_parse_row(colsv, hlen, data[j - 1]) is None);
                return Err(ImportError::BadRow);
            },
        };
        let ghost pre = parsed@;
        parsed.push(row);
        proof {
            assert(parsed@.map_values(|row: GivingFuelDonationRow| row@) =~= Seq::new(
                j as nat,
                |k: int| spec_parse_row(colsv, hlen, data[k])->0,
            )) by {
                lemma_rows_views(pre);
                lemma_rows_views(parsed@);
                assert(parsed@ == pre.push(row));
                assert(forall|k: int| 0 <= k < pre.len() ==> parsed@[k] == #[trigger] pre[k]);
            }
        }
        j += 1;
    }
    let ghost parsedv = Seq::new(data.len(), |k: int| spec_parse_row(colsv, hlen, data[k])->0);
    proof {
        lemma_rows_views(parsed@);
        assert(parsed@.map_values(|row: GivingFuelDonationRow| row@) =~= parsedv);
    }
    let n = parsed.len();
    proof {
        if ledger@.members.len() > 0 {
            assert(ledger@.members[ledger@.members.len() - 1].id == ledger@.members.len() as int);
        }
        if ledger@.payments.len() > 0 {
            assert(ledger@.payments[ledger@.payments.len() - 1].id
                == ledger@.payments.len() as int);
        }
    }
    if n >= 0x7fff_ffff || ledger.member_count() + n >= 0x7fff_ffff || ledger.payment_count() + n
        >= 0x7fff_ffff {
        return Err(ImportError::TooLarge);
    }
    let ghost startv = ledger@;
    let mut members_added: u32 = 0;
    let mut payments_added: u32 = 0;
    let mut done: usize = 0;
    while done < n
        invariant
            0 <= done <= n == parsed@.len(),
            parsed@.map_values(|row: GivingFuelDonationRow| row@) == parsedv,
            parsedv.len() == n,
            n < 0x7fff_ffff,
            startv.members.len() + n < 0x7fff_ffff,
            startv.payments.len() + n < 0x7fff_ffff,
            ledger.wf(),
            ledger@ == apply_rows(startv, parsedv.reverse().take(done as int)),
            ledger@.members.len() <= startv.members.len() + done,
            ledger@.payments.len() <= startv.payments.len() + done,
            members_added as int == ledger@.members.len() - startv.members.len(),
            payments_added as int == applicable_count(parsedv.reverse().take(done as int)),
            payments_added <= done,
        decreases n - done,
    {
        let idx = n - 1 - done;
        let row = &parsed[idx];
        let ghost rv = parsedv.reverse()[done as int];
        proof {
            lemma_rows_views(parsed@);
            assert(rv == parsedv[n - 1 - done]);
            assert(row@ == rv);
            assert(parsedv.reverse().take(done + 1).drop_last() =~= parsedv.reverse().take(
                done as int,
            ));
            assert(parsedv.reverse().take(done + 1).last() == rv);
        }
        let applicable = crate::text::bytes_eq(row.status.as_slice(), "completed".as_bytes())
            && crate::text::bytes_eq(row.transaction_type.as_slice(), "charge".as_bytes())
            && row.total.is_some();
        if applicable {
            let email = crate::text::normalize_email(row.email.as_slice());
            let first = row.first_name.clone();
            let last = row.last_name.clone();
            proof {
                assert(first@ == row.first_name@);
                assert(last@ == row.last_name@);
            }
            let (member_id, created) = ledger.resolve_member(email, first, last);
            let amount = match row.total {
                Some(a) => a,
                None => {
                    assert(false);
                    Amount { cents: 0 }
                },
            };
            let method = vstd::slice::slice_to_vec("webconnex".as_bytes());
            let _payment_id = ledger.record_payment(
                member_id,
                Some(row.payment_date),
                1,
                amount,
                method,
                None,
                Some(row.transaction_id),
                None,
            );
            if created {
                members_added = members_added + 1;
            }
            payments_added = payments_added + 1;
        }
        proof {
            assert(ledger@ == apply_row(apply_rows(startv, parsedv.reverse().take(done as int)), rv));
            assert(ledger@ == apply_rows(startv, parsedv.reverse().take(done + 1)));
        }
        done += 1;
    }
    proof {
        assert(parsedv.reverse().take(n as int) =~= parsedv.reverse());
    }
    Ok(BulkSummary { members_added, payments_added })
}

/// One event fetched from the donation API: either a donation the page
/// decoded, or a per-event description of why it could not be decoded.
pub enum BackfillItem {
    Event(crate::donorbox::new_donation::DonationEvent),
    Malformed(String),
}

/// Counts and per-event errors reported by the API backfill.
pub struct BackfillSummary {
    pub new_members: u32,
    pub transactions: u32,
    pub skipped: u32,
    pub errors: Vec<String>,
}

/// Store state after a backfill batch: applicable donations applied in
/// order; skipped and malformed events write nothing.
pub open spec fn backfill_apply(
    l: LedgerV,
    cfg: crate::donorbox::DonorboxConfig,
    items: Seq<BackfillItem>,
) -> LedgerV
    decreases items.len(),
{
    if items.len() == 0 {
        l
    } else {
        let prev = backfill_apply(l, cfg, items.drop_last());
        match items.last() {
            BackfillItem::Event(e) => if crate::donorbox::new_donation::donation_applicable(
                e,
                cfg,
            ) {
                crate::donorbox::new_donation::donation_applied_ledger(prev, e)
            } else {
                prev
            },
            BackfillItem::Malformed(_) => prev,
        }
    }
}

/// How many events are applicable donations.
pub open spec fn backfill_tx_count(
    cfg: crate::donorbox::DonorboxConfig,
    items: Seq<BackfillItem>,
) -> int
    decreases items.len(),
{
    if items.len() == 0 {
        0
    } else {
        backfill_tx_count(cfg, items.drop_last()) + match items.last() {
            BackfillItem::Event(e) => if crate::donorbox::new_donation::donation_applicable(
                e,
                cfg,
            ) {
                1int
            } else {
                0int
            },
            BackfillItem::Malformed(_) => 0int,
        }
    }
}

/// How many events the policy filter skipped.
pub open spec fn backfill_skip_count(
    cfg: crate::donorbox::DonorboxConfig,
    items: Seq<BackfillItem>,
) -> int
    decreases items.len(),
{
    if items.len() == 0 {
        0
    } else {
        backfill_skip_count(cfg, items.drop_last()) + match items.last() {
            BackfillItem::Event(e) => if crate::donorbox::new_donation::donation_applicable(
                e,
                cfg,
            ) {
                0int
            } else {
                1int
            },
            BackfillItem::Malformed(_) => 0int,
        }
    }
}

/// The malformed events' descriptions, in order.
pub open spec fn backfill_errors(items: Seq<BackfillItem>) -> Seq<Seq<char>>
    decreases items.len(),
{
    if items.len() == 0 {
        Seq::empty()
    } else {
        let prev = backfill_errors(items.drop_last());
        match items.last() {
            BackfillItem::Event(_) => prev,
            BackfillItem::Malformed(msg) => prev.push(msg@),
        }
    }
}

/// The store is append-only across a whole backfill batch as well.
pub proof fn lemma_backfill_append_only(
    l: LedgerV,
    cfg: crate::donorbox::DonorboxConfig,
    items: Seq<BackfillItem>,
)
    ensures
        l.members.len() <= backfill_apply(l, cfg, items).members.len(),
        forall|i: int|
            0 <= i < l.members.len() ==> #[trigger] backfill_apply(l, cfg, items).members[i]
                == l.members[i],
        l.payments.len() <= backfill_apply(l, cfg, items).payments.len(),
        forall|i: int|
            0 <= i < l.payments.len() ==> #[trigger] backfill_apply(l, cfg, items).payments[i]
                == l.payments[i],
    decreases items.len(),
{
    if items.len() > 0 {
        lemma_backfill_append_only(l, cfg, items.drop_last());
        let prev = backfill_apply(l, cfg, items.drop_last());
        match items.last() {
            BackfillItem::Event(e) => {
                if crate::donorbox::new_donation::donation_applicable(e, cfg) {
                    crate::donorbox::new_donation::lemma_donation_append_only(prev, e);
                }
            },
            BackfillItem::Malformed(_) => {},
        }
    }
}

/// The API backfill over a fetched batch of events.
///
/// Unlike the CSV import, this aggregates: each malformed event yields one
/// error string, each applicable donation is applied, and every applied
/// donation stays applied whatever happens to later events in the batch.
pub fn submit_donorbox_bulk_update(
    ledger: &mut Ledger,
    user: &crate::auth::Jwt,
    cfg: &crate::donorbox::DonorboxConfig,
    email_verify: Option<&String>,
    start_date: Option<&String>,
    items: &Vec<BackfillItem>,
) -> (r: Result<BackfillSummary, ImportError>)
    requires
        old(ledger).wf(),
    ensures
        final(ledger).wf(),
        !email_confirmed(*user, email_verify) ==> final(ledger)@ == old(ledger)@ && r == Result::<
            BackfillSummary,
            ImportError,
        >::Err(ImportError::EmailMismatch),
        email_confirmed(*user, email_verify) && start_date is None ==> final(ledger)@ == old(
            ledger,
        )@ && r == Result::<BackfillSummary, ImportError>::Err(ImportError::MissingStartDate),
        email_confirmed(*user, email_verify) && start_date is Some ==> if old(
            ledger,
        )@.members.len() + items@.len() >= 0x7fff_ffff || old(ledger)@.payments.len()
            + items@.len() >= 0x7fff_ffff {
            final(ledger)@ == old(ledger)@ && r == Result::<BackfillSummary, ImportError>::Err(
                ImportError::TooLarge,
            )
        } else {
            &&& final(ledger)@ == backfill_apply(old(ledger)@, *cfg, items@)
            &&& r is Ok
            &&& r->Ok_0.transactions as int == backfill_tx_count(*cfg, items@)
            &&& r->Ok_0.skipped as int == backfill_skip_count(*cfg, items@)
            &&& r->Ok_0.errors.deep_view() == backfill_errors(items@)
            &&& r->Ok_0.new_members as int == final(ledger)@.members.len() - old(
                ledger,
            )@.members.len()
        },
{
    if !crate::auth::verify_email_confirmation(user, email_verify) {
        return Err(ImportError::EmailMismatch);
    }
    if start_date.is_none() {
        return Err(ImportError::MissingStartDate);
    }
    let n = items.len();
    proof {
        if ledger@.members.len() > 0 {
            assert(ledger@.members[ledger@.members.len() - 1].id == ledger@.members.len() as int);
        }
        if ledger@.payments.len() > 0 {
            assert(ledger@.payments[ledger@.payments.len() - 1].id
                == ledger@.payments.len() as int);
        }
    }
    if n >= 0x7fff_ffff || ledger.member_count() + n >= 0x7fff_ffff || ledger.payment_count() + n
        >= 0x7fff_ffff {
        return Err(ImportError::TooLarge);
    }
    let ghost startv = ledger@;
    let mut new_members: u32 = 0;
    let mut transactions: u32 = 0;
    let mut skipped: u32 = 0;
    let mut errors: Vec<String> = Vec::new();
    let mut done: usize = 0;
    proof {
        assert(errors.deep_view() =~~= backfill_errors(items@.take(0)));
    }
    while done < n
        invariant
            0 <= done <= n == items@.len(),
            n < 0x7fff_ffff,
            startv.members.len() + n < 0x7fff_ffff,
            startv.payments.len() + n < 0x7fff_ffff,
            ledger.wf(),
            ledger@ == backfill_apply(startv, *cfg, items@.take(done as int)),
            ledger@.members.len() <= startv.members.len() + done,
            ledger@.payments.len() <= startv.payments.len() + done,
            new_members as int == ledger@.members.len() - startv.members.len(),
            transactions as int == backfill_tx_count(*cfg, items@.take(done as int)),
            transactions <= done,
            skipped as int == backfill_skip_count(*cfg, items@.take(done as int)),
            skipped <= done,
            errors.deep_view() == backfill_errors(items@.take(done as int)),
            errors@.len() <= done,
        decreases n - done,
    {
        proof {
            assert(items@.take(done + 1).drop_last() =~= items@.take(done as int));
            assert(items@.take(done + 1).last() == items@[done as int]);
        }
        match &items[done] {
            BackfillItem::Event(event) => {
                match crate::donorbox::new_donation::process_donation(ledger, cfg, event) {
                    Ok(resp) => {
                        transactions = transactions + 1;
                        if resp.created_member_id.is_some() {
                            new_members = new_members + 1;
                        }
                    },
                    Err(_) => {
                        skipped = skipped + 1;
                    },
                }
            },
            BackfillItem::Malformed(msg) => {
                let ghost pre = errors.deep_view();
                errors.push(msg.clone());
                proof {
                    assert(errors.deep_view() =~~= pre.push(msg@));
                }
            },
        }
        done += 1;
    }
    proof {
        assert(items@.take(n as int) =~= items@);
    }
    Ok(BackfillSummary { new_members, transactions, skipped, errors })
}

} // verus!
