use roadmap_planner::date::Date;
use roadmap_planner::roadmap::calculate_project_urgency;

fn mk_date(year: u64, month: u64, day: u64) -> Date {
    Date::new(year, month, day).unwrap()
}

#[test]
fn it_works() {
    let result = calculate_project_urgency(
        5,
        5,
        &mk_date(2022, 10, 15),
        &mk_date(2022, 10, 16),
        &mk_date(2022, 10, 15),
    );
    println!("{result}")
}

#[test]
fn one_day_spans_give_full_urgency() {
    // Both spans are one day: 0.2/1 + 0.1/1 + 0.3 + 0.4 = 1.0.
    let urgency = calculate_project_urgency(
        5,
        5,
        &mk_date(2022, 10, 15),
        &mk_date(2022, 10, 16),
        &mk_date(2022, 10, 15),
    );
    assert_eq!(urgency, 100);
}

#[test]
fn two_day_spans_give_tier_a_urgency() {
    // 0.2/2 + 0.1/2 + 3/5*0.3 + 4/5*0.4 = 0.65.
    let urgency = calculate_project_urgency(
        3,
        4,
        &mk_date(2022, 10, 14),
        &mk_date(2022, 10, 16),
        &mk_date(2022, 10, 14),
    );
    assert_eq!(urgency, 65);
}

#[test]
fn ten_day_spans_give_tier_b_urgency() {
    // 0.2/10 + 0.1/10 + 3/5*0.3 + 3/5*0.4 = 0.45.
    let urgency = calculate_project_urgency(
        3,
        3,
        &mk_date(2022, 10, 6),
        &mk_date(2022, 10, 16),
        &mk_date(2022, 10, 6),
    );
    assert_eq!(urgency, 45);
}

#[test]
fn ten_day_spans_low_ratings_give_tier_c_urgency() {
    // 0.2/10 + 0.1/10 + 1/5*0.3 + 1/5*0.4 = 0.17.
    let urgency = calculate_project_urgency(
        1,
        1,
        &mk_date(2022, 10, 6),
        &mk_date(2022, 10, 16),
        &mk_date(2022, 10, 6),
    );
    assert_eq!(urgency, 17);
}

#[test]
fn long_spans_leave_only_the_rating_part() {
    // Spans of 1000 days contribute 0.0003, rounded away: 0.06 + 0.08.
    let urgency = calculate_project_urgency(
        1,
        1,
        &mk_date(2020, 1, 27),
        &mk_date(2022, 10, 23),
        &mk_date(2020, 1, 27),
    );
    assert_eq!(urgency, 14);
}

#[test]
fn target_equal_to_today_saturates() {
    let urgency = calculate_project_urgency(
        1,
        1,
        &mk_date(2022, 10, 1),
        &mk_date(2022, 10, 16),
        &mk_date(2022, 10, 16),
    );
    assert_eq!(urgency, 100);
}

#[test]
fn target_equal_to_start_saturates() {
    let urgency = calculate_project_urgency(
        1,
        1,
        &mk_date(2022, 10, 16),
        &mk_date(2022, 10, 16),
        &mk_date(2022, 10, 10),
    );
    assert_eq!(urgency, 100);
}

#[test]
fn urgency_is_deterministic() {
    let first = calculate_project_urgency(
        4,
        2,
        &mk_date(2022, 9, 1),
        &mk_date(2022, 12, 24),
        &mk_date(2022, 10, 15),
    );
    let second = calculate_project_urgency(
        4,
        2,
        &mk_date(2022, 9, 1),
        &mk_date(2022, 12, 24),
        &mk_date(2022, 10, 15),
    );
    assert_eq!(first, second);
}

#[test]
fn urgency_is_monotonic_in_ratings_and_clamped() {
    let start = mk_date(2022, 10, 1);
    let target = mk_date(2022, 11, 1);
    let today = mk_date(2022, 10, 10);
    let mut previous: u64 = 0;
    for complexity in 1..=5u64 {
        for value in 1..=5u64 {
            let urgency = calculate_project_urgency(
                complexity as usize,
                value as usize,
                &start,
                &target,
                &today,
            );
            assert!(urgency <= 100);
            if value > 1 {
                assert!(urgency >= previous);
            }
            previous = urgency;
        }
    }
    // Holding value fixed, higher complexity never lowers the urgency.
    for value in 1..=5usize {
        let mut prev: u64 = 0;
        for complexity in 1..=5usize {
            let urgency = calculate_project_urgency(complexity, value, &start, &target, &today);
            if complexity > 1 {
                assert!(urgency >= prev);
            }
            prev = urgency;
        }
    }
}
