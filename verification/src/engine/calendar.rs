use vstd::prelude::*;

use crate::kinds::{season_at, season_index, SeasonKind};

verus! {

/// The day within the current season, counted from zero.
#[derive(Clone, Copy, Debug, PartialEq, Eq, Structural)]
pub struct Day(pub i16);

/// The current season.
#[derive(Clone, Copy, Debug, PartialEq, Eq, Structural)]
pub struct Season(pub SeasonKind);

/// The number of whole years that have passed.
#[derive(Clone, Copy, Debug, PartialEq, Eq, Structural)]
pub struct Year(pub usize);

/// The last day of a season: the day after it is the first day of the next season.
pub const LAST_DAY_OF_SEASON: i16 = 99;

/// A day that the calendar can show.
pub open spec fn valid_day(day: int) -> bool {
    0 <= day <= LAST_DAY_OF_SEASON
}

/// The date one day later: after the last day of a season comes day zero of the
/// next season, and after the last day of winter a new year begins.
pub open spec fn next_date(date: (int, SeasonKind, int)) -> (int, SeasonKind, int) {
    let (day, season, year) = date;
    if day == LAST_DAY_OF_SEASON {
        (
            0,
            season_at(season_index(season) + 1),
            if season == SeasonKind::Winter {
                year + 1
            } else {
                year
            },
        )
    } else {
        (day + 1, season, year)
    }
}

/// The date after `n` days have passed.
pub open spec fn date_after(date: (int, SeasonKind, int), n: nat) -> (int, SeasonKind, int)
    decreases n,
{
    if n == 0 {
        date
    } else {
        next_date(date_after(date, (n - 1) as nat))
    }
}

/// The number of days from the start of year zero to a date: a season has a hundred
/// days and a year four seasons.
pub open spec fn day_count(date: (int, SeasonKind, int)) -> int {
    date.2 * 400 + season_index(date.1) * 100 + date.0
}

/// The view of the calendar components as a date.
pub open spec fn date_of(day: Day, season: Season, year: Year) -> (int, SeasonKind, int) {
    (day.0 as int, season.0, year.0 as int)
}

/// The calendar at the start of a game: day zero of spring, year zero.
pub fn initial_calendar() -> (r: (Day, Season, Year))
    ensures
        date_of(r.0, r.1, r.2) == (0int, SeasonKind::Spring, 0int),
        day_count(date_of(r.0, r.1, r.2)) == 0,
{
    (Day(0), Season(SeasonKind::Spring), Year(0))
}

/// Moves the calendar on by one day when the day ticker has just ticked; leaves it as
/// it is otherwise.
pub fn advance_calendar(just_ticked: bool, day: &mut Day, season: &mut Season, year: &mut Year)
    requires
        just_ticked ==> old(day).0 < i16::MAX,
        just_ticked && old(day).0 == LAST_DAY_OF_SEASON && old(season).0 == SeasonKind::Winter
            ==> old(year).0 < usize::MAX,
    ensures
        just_ticked ==> date_of(*final(day), *final(season), *final(year)) == next_date(
            date_of(*old(day), *old(season), *old(year)),
        ),
        !just_ticked ==> *final(day) == *old(day),
        !just_ticked ==> *final(season) == *old(season),
        !just_ticked ==> *final(year) == *old(year),
{
    if !just_ticked {
        return ;
    }
    let mut is_new_season = false;
    if day.0 == LAST_DAY_OF_SEASON {
        day.0 = 0;
        is_new_season = true;
    } else {
        day.0 = day.0 + 1;
    }

    let mut is_new_year = false;
    if is_new_season {
        if season.0 == SeasonKind::Winter {
            is_new_year = true;
        }
        season.0 = season.0.next();
    }

    if is_new_year {
        year.0 = year.0 + 1;
    }
}

/// What the calendar reports when some of its components changed: the value of each
/// changed component, or nothing when none changed.
#[derive(Clone, Copy, Debug, PartialEq, Eq, Structural)]
pub struct PartialCalendarState {
    pub day: Option<i16>,
    pub season: Option<SeasonKind>,
    pub year: Option<usize>,
}

impl Default for PartialCalendarState {
    fn default() -> (r: Self)
        ensures
            r.day is None && r.season is None && r.year is None,
    {
        PartialCalendarState { day: None, season: None, year: None }
    }
}

/// The change report of the calendar: `None` when no component changed; otherwise
/// the values of exactly the components that changed.
pub fn calendar_changes(
    day: Day,
    season: Season,
    year: Year,
    day_changed: bool,
    season_changed: bool,
    year_changed: bool,
) -> (r: Option<PartialCalendarState>)
    ensures
        r is None <==> !day_changed && !season_changed && !year_changed,
        r matches Some(s) ==> {
            &&& s.day == (if day_changed { Some(day.0) } else { None })
            &&& s.season == (if season_changed { Some(season.0) } else { None })
            &&& s.year == (if year_changed { Some(year.0) } else { None })
        },
{
    let mut has_changes = false;
    let mut state = PartialCalendarState::default();
    if day_changed {
        state.day = Some(day.0);
        has_changes = true;
    }
    if season_changed {
        state.season = Some(season.0);
        has_changes = true;
    }
    if year_changed {
        state.year = Some(year.0);
        has_changes = true;
    }
    if has_changes {
        Some(state)
    } else {
        None
    }
}

/// One day moves a valid date to a valid date and adds one to its day count.
pub proof fn lemma_next_date_counts_one_day(date: (int, SeasonKind, int))
    requires
        valid_day(date.0),
    ensures
        valid_day(next_date(date).0),
        day_count(next_date(date)) == day_count(date) + 1,
{
    match date.1 {
        SeasonKind::Spring => {},
        SeasonKind::Summer => {},
        SeasonKind::Autumn => {},
        SeasonKind::Winter => {},
    }
}

/// After `n` days a valid date is a valid date whose day count is `n` larger.
pub proof fn lemma_days_add_up(date: (int, SeasonKind, int), n: nat)
    requires
        valid_day(date.0),
    ensures
        valid_day(date_after(date, n).0),
        day_count(date_after(date, n)) == day_count(date) + n,
    decreases n,
{
    if n > 0 {
        lemma_days_add_up(date, (n - 1) as nat);
        lemma_next_date_counts_one_day(date_after(date, (n - 1) as nat));
    }
}

/// Two valid dates with the same day count are the same date.
pub proof fn lemma_day_count_determines_date(a: (int, SeasonKind, int), b: (int, SeasonKind, int))
    requires
        valid_day(a.0),
        valid_day(b.0),
        day_count(a) == day_count(b),
    ensures
        a == b,
{
    assert(a.2 == b.2);
    assert(season_index(a.1) == season_index(b.1));
}

/// A year later the calendar shows the same day of the same season, one year on.
pub proof fn lemma_year_after(date: (int, SeasonKind, int))
    requires
        valid_day(date.0),
    ensures
        date_after(date, 400) == (date.0, date.1, date.2 + 1),
{
    lemma_days_add_up(date, 400);
    lemma_day_count_determines_date(date_after(date, 400), (date.0, date.1, date.2 + 1));
}

/// A season later the calendar shows the same day of the next season.
pub proof fn lemma_season_after(date: (int, SeasonKind, int))
    requires
        valid_day(date.0),
    ensures
        date_after(date, 100).0 == date.0,
        date_after(date, 100).1 == season_at(season_index(date.1) + 1),
{
    lemma_days_add_up(date, 100);
    let expected = (
        date.0,
        season_at(season_index(date.1) + 1),
        if date.1 == SeasonKind::Winter {
            date.2 + 1
        } else {
            date.2
        },
    );
    lemma_day_count_determines_date(date_after(date, 100), expected);
}

/// In a run of dates where each comes one day after the one before, the date at
/// position `n` is `n` days after the first.
proof fn lemma_run_of_days(dates: Seq<(int, SeasonKind, int)>, n: int)
    requires
        0 <= n < dates.len(),
        forall|i: int| 0 < i < dates.len() ==> #[trigger] dates[i] == next_date(dates[i - 1]),
    ensures
        dates[n] == date_after(dates[0], n as nat),
    decreases n,
{
    if n > 0 {
        lemma_run_of_days(dates, n - 1);
        assert(dates[n] == next_date(dates[n - 1]));
    }
}

/// Four hundred ticks of the day ticker make one year: when each of 400 successive
/// `advance_calendar` calls has a tick, so that each date is the one after the date
/// before it, the calendar ends on the same day of the same season, one year on.
pub proof fn lemma_four_hundred_ticks_make_a_year(dates: Seq<(int, SeasonKind, int)>)
    requires
        dates.len() == 401,
        valid_day(dates[0].0),
        forall|i: int| 0 < i < dates.len() ==> #[trigger] dates[i] == next_date(dates[i - 1]),
    ensures
        dates[400] == (dates[0].0, dates[0].1, dates[0].2 + 1),
{
    lemma_run_of_days(dates, 400);
    lemma_year_after(dates[0]);
}

} // verus!
