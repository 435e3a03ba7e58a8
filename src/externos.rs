use vstd::prelude::*;

verus! {

/// Day number (January 1 of year 1 is day 1) of a text read as `%Y-%m-%d`, or `None`
/// when the text is no such date.
pub uninterp spec fn dia_lido(s: Seq<char>) -> Option<i32>;

/// Day of the week of a day number, Monday being 0; `None` outside the calendar's range.
pub uninterp spec fn semana_de(dia: int) -> Option<u32>;

/// Relies on chrono's `NaiveDate::parse_from_str` with the format `%Y-%m-%d`, and on
/// `Datelike::num_days_from_ce` to turn the date into its day number.
#[verifier::external_body]
pub(crate) fn ler_dia(s: &str) -> (r: Option<i32>)
    ensures
        r == dia_lido(s@),
{
    chrono::NaiveDate::parse_from_str(s, "%Y-%m-%d").ok().map(
        |d| chrono::Datelike::num_days_from_ce(&d),
    )
}

/// Relies on chrono's `NaiveDate::from_num_days_from_ce_opt` (`None` outside its range)
/// and on `Weekday::num_days_from_monday`, which counts Monday as 0 and Sunday as 6.
#[verifier::external_body]
pub(crate) fn dia_da_semana(dia: i32) -> (r: Option<u32>)
    ensures
        r == semana_de(dia as int),
        r is Some ==> r->0 < 7,
{
    chrono::NaiveDate::from_num_days_from_ce_opt(dia).map(
        |d| chrono::Datelike::weekday(&d).num_days_from_monday(),
    )
}

/// Relies on uuid's `Uuid::new_v4`, a random identifier, written out hyphenated by its
/// `Display` (36 characters).
#[verifier::external_body]
pub(crate) fn nova_id() -> (r: String)
    ensures
        r@.len() == 36,
{
    uuid::Uuid::new_v4().to_string()
}

} // verus!
