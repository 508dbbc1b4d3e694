//! Table rendering. The row contents (labels, counts, percentages) are
//! computed and proved here; drawing the final box table is delegated to
//! the `tabled` crate behind trusted wrappers, whose output is named by
//! `spec_sharp_table` as a function of the pushed rows alone.

use crate::text::{digit_char, push_char, spec_digit_char, spec_u64_string, u64_to_string};
use vstd::arithmetic::div_mod::{lemma_div_is_ordered, lemma_fundamental_div_mod_converse};
use vstd::prelude::*;

verus! {

/// The percentage with one decimal digit, as tenths of a percent,
/// rounded half-up: 1000 * count / denom, rounded.
pub open spec fn spec_permille(count: int, denom: int) -> int {
    (2000 * count + denom) / (2 * denom)
}

/// The rendered percentage: `count / denom * 100` with one decimal
/// place, and `0.0%` when the denominator is zero.
pub open spec fn spec_percentage(count: int, denom: int) -> Seq<char> {
    if denom <= 0 {
        "0.0%"@
    } else {
        let p = spec_permille(count, denom);
        spec_u64_string((p / 10) as nat) + "."@ + seq![spec_digit_char(p % 10)] + "%"@
    }
}

/// Renders the percentage of `count` out of `denom` with one decimal
/// place; a zero denominator renders as `0.0%`.
pub fn format_percentage(count: u64, denom: u64) -> (r: String)
    requires
        count <= denom,
    ensures
        r@ == spec_percentage(count as int, denom as int),
{
    if denom == 0 {
        String::from_str("0.0%")
    } else {
        let c = count as u128;
        let d = denom as u128;
        let p128: u128 = (2000 * c + d) / (2 * d);
        proof {
            assert(2000 * c + d <= 2001 * d);
            lemma_div_is_ordered(2000 * (c as int) + d as int, 2001 * (d as int), 2 * (d as int));
            lemma_fundamental_div_mod_converse(
                2001 * (d as int),
                2 * (d as int),
                1000,
                d as int,
            );
            assert(p128 <= 1000);
            assert(p128 == spec_permille(count as int, denom as int));
        }
        let p = p128 as u64;
        let mut s = u64_to_string(p / 10);
        s.append(".");
        push_char(&mut s, digit_char(p % 10));
        s.append("%");
        proof {
            assert(p / 10 == spec_permille(count as int, denom as int) / 10);
            assert(p % 10 == spec_permille(count as int, denom as int) % 10);
            assert(s@ =~= spec_percentage(count as int, denom as int));
        }
        s
    }
}

/// The rows a builder holds, each a row of cells.
pub uninterp spec fn rows_of(b: tabled::builder::Builder) -> Seq<Seq<Seq<char>>>;

/// The text `tabled` draws for the given rows with the sharp line style
/// and the given row centered: a pure function of the rows and the row
/// index.
pub uninterp spec fn spec_sharp_table(rows: Seq<Seq<Seq<char>>>, centered: int) -> Seq<char>;

#[verifier::external_type_specification]
#[verifier::external_body]
pub struct ExBuilder(tabled::builder::Builder);

/// Relies on tabled's `Builder::default`, which starts with no records.
#[verifier::external_body]
pub(crate) fn builder_new() -> (b: tabled::builder::Builder)
    ensures
        rows_of(b) == Seq::<Seq<Seq<char>>>::empty(),
{
    tabled::builder::Builder::default()
}

/// Relies on tabled's `Builder::push_record`, which appends one row of
/// cells to the builder. A row whose width differs from the rows already
/// held is padded with empty cells (on one side or the other), so plain
/// appending is promised only when the new row's width matches every
/// held row's.
#[verifier::external_body]
pub(crate) fn builder_push_record(b: &mut tabled::builder::Builder, row: Vec<String>)
    ensures
        (forall|k: int|
            0 <= k < rows_of(*old(b)).len() ==> (#[trigger] rows_of(*old(b))[k]).len()
                == row.deep_view().len()) ==> rows_of(*final(b)) == rows_of(*old(b)).push(
            row.deep_view(),
        ),
{
    b.push_record(row);
}

/// Relies on tabled's `Builder::build`, `Table::with` with
/// `Style::sharp`, `Modify`/`Rows`/`Alignment::center`, and the table's
/// `Display`: the drawn text depends only on the pushed rows and the
/// centered row index.
#[verifier::external_body]
pub(crate) fn build_sharp_table(b: tabled::builder::Builder, center_row: usize) -> (r: String)
    ensures
        r@ == spec_sharp_table(rows_of(b), center_row as int),
{
    let mut table = b.build();
    table.with(tabled::settings::Style::sharp());
    table.with(
        tabled::settings::Modify::new(
            tabled::settings::object::Rows::new(center_row..=center_row),
        ).with(tabled::settings::Alignment::center()),
    );
    table.to_string()
}

/// A two-cell row.
pub fn row2(a: String, b: String) -> (r: Vec<String>)
    ensures
        r.deep_view() == seq![a@, b@],
{
    let mut v: Vec<String> = Vec::new();
    v.push(a);
    v.push(b);
    proof {
        assert(v.deep_view() =~= seq![v@[0]@, v@[1]@]);
    }
    v
}

/// A three-cell row.
pub fn row3(a: String, b: String, c: String) -> (r: Vec<String>)
    ensures
        r.deep_view() == seq![a@, b@, c@],
{
    let mut v: Vec<String> = Vec::new();
    v.push(a);
    v.push(b);
    v.push(c);
    proof {
        assert(v.deep_view() =~= seq![v@[0]@, v@[1]@, v@[2]@]);
    }
    v
}

} // verus!
