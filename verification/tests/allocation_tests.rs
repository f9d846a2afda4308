use roadmap_planner::allocation::assign_contributors;
use roadmap_planner::allocation::assign_to_item;
use roadmap_planner::contributor::Contributor;
use roadmap_planner::date::Date;
use roadmap_planner::roadmap::RoadmapItem;

fn mk_date(year: u64, month: u64, day: u64) -> Date {
    Date::new(year, month, day).unwrap()
}

/// An item whose urgency lands in the top tier: 0.65.
fn tier_a_item(name: &str) -> RoadmapItem {
    RoadmapItem::new(
        String::from(name),
        3,
        4,
        mk_date(2022, 10, 14),
        mk_date(2022, 10, 16),
        mk_date(2022, 10, 14),
        Vec::new(),
    )
}

/// An item whose urgency lands in the middle tier: 0.45.
fn tier_b_item(name: &str) -> RoadmapItem {
    RoadmapItem::new(
        String::from(name),
        3,
        3,
        mk_date(2022, 10, 6),
        mk_date(2022, 10, 16),
        mk_date(2022, 10, 6),
        Vec::new(),
    )
}

/// An item whose urgency lands in the bottom tier: 0.17.
fn tier_c_item(name: &str) -> RoadmapItem {
    RoadmapItem::new(
        String::from(name),
        1,
        1,
        mk_date(2022, 10, 6),
        mk_date(2022, 10, 16),
        mk_date(2022, 10, 6),
        Vec::new(),
    )
}

fn names_of(contributors: &[Contributor]) -> Vec<String> {
    contributors.iter().map(|c| c.name.clone()).collect()
}

#[test]
fn top_tier_takes_head_tail_then_the_rest() {
    let mut pool = vec![
        Contributor::new(String::from("A"), 1),
        Contributor::new(String::from("B"), 3),
        Contributor::new(String::from("C"), 5),
    ];
    let item = tier_a_item("launch");
    assert_eq!(item.get_urgency(), 65);
    let result = assign_contributors(vec![item], &mut pool);
    assert_eq!(result.len(), 1);
    // Head (most junior) first, tail (most senior) second, then the only
    // remaining contributor via the random draw.
    assert_eq!(names_of(&result[0].get_contributors()), vec!["A", "C", "B"]);
    assert!(pool.is_empty());
}

#[test]
fn middle_tier_with_one_contributor_assigns_exactly_one() {
    let mut pool = vec![Contributor::new(String::from("A"), 2)];
    let item = tier_b_item("launch");
    assert_eq!(item.get_urgency(), 45);
    let result = assign_contributors(vec![item], &mut pool);
    assert_eq!(result.len(), 1);
    // The head pick takes A; the tail pick then finds the pool empty.
    assert_eq!(names_of(&result[0].get_contributors()), vec!["A"]);
    assert!(pool.is_empty());
}

#[test]
fn empty_pool_assigns_nothing_in_any_tier() {
    let mut pool: Vec<Contributor> = Vec::new();
    let items = vec![tier_a_item("first"), tier_b_item("second"), tier_c_item("third")];
    let result = assign_contributors(items, &mut pool);
    assert_eq!(result.len(), 3);
    for item in &result {
        assert!(item.get_contributors().is_empty());
    }
    assert!(pool.is_empty());
}

#[test]
fn top_tier_with_one_contributor_assigns_exactly_one() {
    let mut pool = vec![Contributor::new(String::from("X"), 3)];
    let result = assign_contributors(vec![tier_a_item("launch")], &mut pool);
    assert_eq!(result[0].get_contributors().len(), 1);
    assert_eq!(names_of(&result[0].get_contributors()), vec!["X"]);
    assert!(pool.is_empty());
}

#[test]
fn middle_tier_takes_head_and_tail() {
    let mut pool = vec![
        Contributor::new(String::from("A"), 1),
        Contributor::new(String::from("B"), 3),
        Contributor::new(String::from("C"), 5),
    ];
    let result = assign_contributors(vec![tier_b_item("launch")], &mut pool);
    assert_eq!(names_of(&result[0].get_contributors()), vec!["A", "C"]);
    assert_eq!(names_of(&pool), vec!["B"]);
}

#[test]
fn bottom_tier_draws_one_from_the_pool() {
    let mut pool = vec![
        Contributor::new(String::from("A"), 2),
        Contributor::new(String::from("B"), 4),
    ];
    let result = assign_contributors(vec![tier_c_item("chore")], &mut pool);
    let picked = result[0].get_contributors();
    assert_eq!(picked.len(), 1);
    assert_eq!(pool.len(), 1);
    // Whichever was drawn, pool and pick together are the two we started with.
    let mut seen = names_of(&picked);
    seen.append(&mut names_of(&pool));
    seen.sort();
    assert_eq!(seen, vec!["A", "B"]);
}

#[test]
fn no_contributor_reaches_two_items() {
    let mut pool = vec![
        Contributor::new(String::from("A"), 1),
        Contributor::new(String::from("B"), 3),
        Contributor::new(String::from("C"), 5),
    ];
    let items = vec![tier_b_item("first"), tier_b_item("second")];
    let result = assign_contributors(items, &mut pool);
    assert_eq!(result.len(), 2);
    assert_eq!(names_of(&result[0].get_contributors()), vec!["A", "C"]);
    assert_eq!(names_of(&result[1].get_contributors()), vec!["B"]);
    assert!(pool.is_empty());
    let mut all: Vec<String> = Vec::new();
    for item in &result {
        all.append(&mut names_of(&item.get_contributors()));
    }
    all.sort();
    all.dedup();
    assert_eq!(all.len(), 3);
}

#[test]
fn allocation_preserves_item_order_and_fields() {
    let mut pool = vec![Contributor::new(String::from("A"), 2)];
    let first = tier_a_item("urgent");
    let second = tier_c_item("later");
    let result = assign_contributors(vec![first, second], &mut pool);
    assert_eq!(result.len(), 2);
    assert_eq!(result[0].name, "urgent");
    assert_eq!(result[0].get_urgency(), 65);
    assert_eq!(result[1].name, "later");
    assert_eq!(result[1].get_urgency(), 17);
}

#[test]
fn assigning_one_item_leaves_the_rest_of_the_pool() {
    let mut pool = vec![
        Contributor::new(String::from("A"), 1),
        Contributor::new(String::from("B"), 2),
        Contributor::new(String::from("C"), 3),
        Contributor::new(String::from("D"), 4),
    ];
    let enriched = assign_to_item(tier_a_item("launch"), &mut pool);
    let picked = enriched.get_contributors();
    assert_eq!(picked.len(), 3);
    assert_eq!(picked[0].name, "A");
    assert_eq!(picked[1].name, "D");
    // The random third pick came from what lay between head and tail.
    assert!(picked[2].name == "B" || picked[2].name == "C");
    assert_eq!(pool.len(), 1);
}
