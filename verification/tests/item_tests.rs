use roadmap_planner::contributor::Contributor;
use roadmap_planner::date::Date;
use roadmap_planner::roadmap::roadmap_fields_valid;
use roadmap_planner::roadmap::RoadmapItem;

fn mk_date(year: u64, month: u64, day: u64) -> Date {
    Date::new(year, month, day).unwrap()
}

fn mk_item(name: &str, complexity: usize, value: usize) -> RoadmapItem {
    RoadmapItem::new(
        String::from(name),
        complexity,
        value,
        mk_date(2022, 10, 14),
        mk_date(2022, 10, 16),
        mk_date(2022, 10, 14),
        Vec::new(),
    )
}

#[test]
fn new_item_carries_its_fields_and_urgency() {
    let item = mk_item("launch", 3, 4);
    assert_eq!(item.name, "launch");
    assert_eq!(item.estimated_complexity, 3);
    assert_eq!(item.estimated_value, 4);
    assert_eq!(item.start_date, mk_date(2022, 10, 14));
    assert_eq!(item.target_date, mk_date(2022, 10, 16));
    assert_eq!(item.get_urgency(), 65);
    assert!(item.get_contributors().is_empty());
}

#[test]
fn add_contributors_replaces_the_list() {
    let item = mk_item("launch", 3, 4);
    let crew = vec![Contributor::new(String::from("A"), 1), Contributor::new(String::from("B"), 4)];
    let enriched = item.add_contributors(crew);
    assert_eq!(enriched.name, "launch");
    assert_eq!(enriched.get_urgency(), 65);
    let names: Vec<String> = enriched.get_contributors().iter().map(|c| c.name.clone()).collect();
    assert_eq!(names, vec![String::from("A"), String::from("B")]);
}

#[test]
fn get_contributors_returns_equal_copies() {
    let crew = vec![Contributor::new(String::from("A"), 1), Contributor::new(String::from("C"), 5)];
    let item = mk_item("launch", 2, 2).add_contributors(crew);
    let copies = item.get_contributors();
    assert_eq!(copies.len(), 2);
    assert_eq!(copies[0].name, "A");
    assert_eq!(copies[0].seniority, 1);
    assert_eq!(copies[1].name, "C");
    assert_eq!(copies[1].seniority, 5);
}

#[test]
fn update_urgency_recomputes_from_the_fields() {
    let mut item = mk_item("launch", 3, 4);
    assert_eq!(item.get_urgency(), 65);
    // Ten days until the target instead of two: 0.02 + 0.05 + 0.18 + 0.32.
    item.update_urgency(mk_date(2022, 10, 6));
    assert_eq!(item.get_urgency(), 57);
}

#[test]
fn contributor_validation_checks_name_and_seniority() {
    assert!(Contributor::new(String::from("A"), 1).is_valid());
    assert!(Contributor::new(String::from("A"), 5).is_valid());
    assert!(!Contributor::new(String::new(), 3).is_valid());
    assert!(!Contributor::new(String::from("A"), 0).is_valid());
    assert!(!Contributor::new(String::from("A"), 6).is_valid());
}

#[test]
fn roadmap_field_validation_checks_name_and_ratings() {
    assert!(roadmap_fields_valid(&String::from("launch"), 1, 5));
    assert!(!roadmap_fields_valid(&String::new(), 3, 3));
    assert!(!roadmap_fields_valid(&String::from("launch"), 0, 3));
    assert!(!roadmap_fields_valid(&String::from("launch"), 3, 6));
}
