//! The table of full mutation codes (`action.csv`): reading its numbers, and picking the
//! codes that an agent's action selects.
use vstd::prelude::*;
use rand::Rng;

use crate::decimal::{dec_i64, dec_int, parse_i64, parse_i64_bytes, starts_with};

verus! {

#[verifier::external_type_specification]
#[verifier::external_body]
pub struct ExCsvError(csv::Error);

/// The records that `csv::Reader` (default settings: a header row, `,` as delimiter, every
/// record as long as the first) reads from `data`, each field as the UTF-8 bytes of its
/// text, or `None` where the reader reports an error.
pub uninterp spec fn csv_string_records(data: Seq<u8>) -> Option<Seq<Seq<Seq<u8>>>>;

/// Reads every record of `data` with `csv::Reader::from_reader` and `Reader::records`.
/// Trusted: the result is `Ok` exactly when the reader reports no error, and then holds the
/// fields that it read; what the csv format admits is left to `csv_string_records`.
#[verifier::external_body]
fn read_csv_records(data: &[u8]) -> (r: Result<Vec<Vec<Vec<u8>>>, csv::Error>)
    ensures
        r is Ok <==> csv_string_records(data@) is Some,
        r matches Ok(v) ==> v.deep_view() == csv_string_records(data@).unwrap(),
{
    let mut reader = csv::Reader::from_reader(data);
    reader.records().map(|rec| rec.map(|r| r.iter().map(|f| f.as_bytes().to_vec()).collect())).collect()
}

/// A draw from `rand::thread_rng().gen_range(0..n)`.
/// Trusted: the result is below `n`; which index comes out is left to chance.
#[verifier::external_body]
pub(crate) fn random_index(n: usize) -> (r: usize)
    requires
        n > 0,
    ensures
        r < n,
{
    rand::thread_rng().gen_range(0..n)
}

/// A draw from `rand::seq::index::sample(&mut rand::thread_rng(), length, amount)`.
/// Trusted: the result holds `amount` distinct indices below `length`; which ones, and in
/// which order, is left to chance.
#[verifier::external_body]
pub(crate) fn random_distinct_indices(length: usize, amount: usize) -> (r: Vec<usize>)
    requires
        amount <= length,
    ensures
        r@.len() == amount,
        forall|i: int| 0 <= i < r@.len() ==> #[trigger] r@[i] < length,
        forall|i: int, j: int| 0 <= i < j < r@.len() ==> r@[i] != r@[j],
{
    rand::seq::index::sample(&mut rand::thread_rng(), length, amount).into_vec()
}

/// Why the action file could not be read.
#[derive(Debug)]
pub enum ActionFileError {
    /// The csv reader reported an error (malformed quoting, records of unequal length,
    /// text that is not UTF-8).
    Malformed,
}

/// The numbers among the fields of one record, in order: the fields that read as an `i64`.
pub open spec fn field_nums(fields: Seq<Seq<u8>>) -> Seq<i64>
    decreases fields.len(),
{
    if fields.len() == 0 {
        Seq::empty()
    } else {
        field_nums(fields.drop_last()) + match parse_i64(fields.last()) {
            Some(v) => seq![v],
            None => Seq::empty(),
        }
    }
}

/// The numbers among the fields of all records, record by record.
pub open spec fn record_nums(recs: Seq<Seq<Seq<u8>>>) -> Seq<i64>
    decreases recs.len(),
{
    if recs.len() == 0 {
        Seq::empty()
    } else {
        record_nums(recs.drop_last()) + field_nums(recs.last())
    }
}

/// Reads the numbers of an action file whose bytes are `data`: every field of every record
/// (the header row excluded) that reads as an `i64`, in file order.
pub fn nums_from_csv(data: &[u8]) -> (r: Result<Vec<i64>, ActionFileError>)
    ensures
        r is Ok <==> csv_string_records(data@) is Some,
        r matches Ok(v) ==> v@ == record_nums(csv_string_records(data@).unwrap()),
{
    let records = match read_csv_records(data) {
        Ok(v) => v,
        Err(_) => {
            return Err(ActionFileError::Malformed);
        },
    };
    Ok(nums_from_records(&records))
}

/// The numbers among the fields of `records`, record by record: every field that reads as
/// an `i64`.
pub fn nums_from_records(records: &Vec<Vec<Vec<u8>>>) -> (r: Vec<i64>)
    ensures
        r@ == record_nums(records.deep_view()),
{
    let ghost recs = records.deep_view();
    let mut nums: Vec<i64> = Vec::new();
    let mut i: usize = 0;
    while i < records.len()
        invariant
            i <= records@.len(),
            recs == records.deep_view(),
            nums@ == record_nums(recs.take(i as int)),
        decreases records@.len() - i,
    {
        let rec = &records[i];
        let ghost fields = recs[i as int];
        assert(fields == rec.deep_view());
        let ghost base = nums@;
        let mut j: usize = 0;
        while j < rec.len()
            invariant
                j <= rec@.len(),
                fields == rec.deep_view(),
                nums@ == base + field_nums(fields.take(j as int)),
            decreases rec@.len() - j,
        {
            let field = &rec[j];
            assert(field@ == fields[j as int]);
            let parsed = parse_i64_bytes(field.as_slice());
            assert(fields.take(j + 1).drop_last() =~= fields.take(j as int));
            match parsed {
                Some(v) => {
                    nums.push(v);
                    assert(nums@ =~= base + field_nums(fields.take(j + 1)));
                },
                None => {
                    assert(nums@ =~= base + field_nums(fields.take(j + 1)));
                },
            }
            j += 1;
        }
        assert(fields.take(rec@.len() as int) =~= fields);
        assert(recs.take(i + 1).drop_last() =~= recs.take(i as int));
        i += 1;
    }
    assert(recs.take(records@.len() as int) =~= recs);
    nums
}

/// Whether the decimal text of `value` starts the decimal text of `num`.
pub open spec fn extends_action(value: int, num: i64) -> bool {
    dec_int(value).is_prefix_of(dec_int(num as int))
}

/// The codes of `nums` that extend the action `value`, in order.
pub open spec fn codes_for_action(nums: Seq<i64>, value: int) -> Seq<i64> {
    nums.filter(|n: i64| extends_action(value, n))
}

/// The codes of `nums` whose decimal text starts with that of `value`, in order.
pub fn actions_with_prefix(nums: &Vec<i64>, value: i32) -> (r: Vec<i64>)
    ensures
        r@ == codes_for_action(nums@, value as int),
{
    let value_str = dec_i64(value as i64);
    let ghost pred = |n: i64| extends_action(value as int, n);
    let mut r: Vec<i64> = Vec::new();
    let mut i: usize = 0;
    while i < nums.len()
        invariant
            i <= nums@.len(),
            value_str@ == dec_int(value as int),
            pred == (|n: i64| extends_action(value as int, n)),
            r@ == nums@.take(i as int).filter(pred),
        decreases nums@.len() - i,
    {
        reveal_with_fuel(Seq::<_>::filter, 1);
        let num = nums[i];
        let num_str = dec_i64(num);
        assert(nums@.take(i + 1).drop_last() =~= nums@.take(i as int));
        if starts_with(&num_str, &value_str) {
            r.push(num);
        }
        i += 1;
    }
    assert(nums@.take(nums@.len() as int) =~= nums@);
    r
}

/// The code at position `idx` among the codes of `nums` that extend the action `value`.
pub fn code_at(nums: &Vec<i64>, value: i32, idx: usize) -> (r: i64)
    requires
        idx < codes_for_action(nums@, value as int).len(),
    ensures
        r == codes_for_action(nums@, value as int)[idx as int],
{
    let codes = actions_with_prefix(nums, value);
    codes[idx]
}

} // verus!
