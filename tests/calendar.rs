use ampacity::calendar::day_of_year;

#[test]
fn first_day_of_year() {
    assert_eq!(day_of_year(1, 1), 1);
}

#[test]
fn june_tenth_is_day_161() {
    assert_eq!(day_of_year(6, 10), 161);
}

#[test]
fn last_day_of_year() {
    assert_eq!(day_of_year(12, 31), 365);
}

#[test]
fn march_first_follows_february_28th() {
    assert_eq!(day_of_year(2, 28), 59);
    assert_eq!(day_of_year(3, 1), 60);
}

#[test]
fn month_below_one_adds_no_days() {
    assert_eq!(day_of_year(0, 5), 5);
    assert_eq!(day_of_year(-3, 5), 5);
}

#[test]
fn day_past_month_end_runs_on() {
    assert_eq!(day_of_year(1, 40), 40);
    assert_eq!(day_of_year(12, 0), 334);
}

#[test]
fn month_thirteen_adds_whole_year() {
    assert_eq!(day_of_year(13, 1), 366);
}
