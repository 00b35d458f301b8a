use diet_manager::catalog::{CatalogError, FoodCatalog};
use diet_manager::database::Database;
use diet_manager::log::{total_calories, DailyLog, Date, LogEntry};
use diet_manager::models::{BasicFood, CompositeFood, Food, FoodComponent};
use diet_manager::resolve::ResolveError;

fn s(x: &str) -> String {
    x.to_string()
}

fn basic(id: &str, kcal_thousandths: u64) -> BasicFood {
    BasicFood { id: s(id), name: s(id), keywords: vec![], calories_per_serving: kcal_thousandths }
}

fn comp(food: &str, servings_thousandths: u64) -> FoodComponent {
    FoodComponent { food_id: s(food), servings: servings_thousandths }
}

fn composite(id: &str, components: Vec<FoodComponent>) -> CompositeFood {
    CompositeFood { id: s(id), name: s(id), keywords: vec![], components }
}

fn sandwich_catalog() -> FoodCatalog {
    let mut c = FoodCatalog::new();
    c.add_basic_food(basic("bread", 80_000)).unwrap();
    c.add_basic_food(basic("chicken", 165_000)).unwrap();
    c.add_composite_food(composite("sandwich", vec![comp("bread", 2_000), comp("chicken", 500)])).unwrap();
    c
}

#[test]
fn sandwich_resolves_to_weighted_sum() {
    let c = sandwich_catalog();
    assert_eq!(c.resolve(&s("sandwich")), Ok(242_500));
}

#[test]
fn atomic_food_resolves_to_stored_value() {
    let c = sandwich_catalog();
    assert_eq!(c.resolve(&s("bread")), Ok(80_000));
    assert_eq!(c.resolve(&s("chicken")), Ok(165_000));
}

#[test]
fn nested_composite_is_weighted_sum_of_components() {
    let mut c = sandwich_catalog();
    c.add_composite_food(composite("lunch", vec![comp("sandwich", 2_000), comp("bread", 1_500)])).unwrap();
    // 2 * 242.5 + 1.5 * 80
    assert_eq!(c.resolve(&s("lunch")), Ok(605_000));
}

#[test]
fn unknown_food_resolves_to_zero() {
    let c = sandwich_catalog();
    assert_eq!(c.resolve(&s("pizza")), Ok(0));
}

#[test]
fn dangling_component_contributes_zero() {
    let mut c = sandwich_catalog();
    c.add_composite_food(composite("toast", vec![comp("bread", 1_000), comp("butter", 1_000)])).unwrap();
    assert_eq!(c.resolve(&s("toast")), Ok(80_000));
}

#[test]
fn self_reference_is_cyclic() {
    let mut c = FoodCatalog::new();
    c.add_composite_food(composite("soup", vec![comp("soup", 1_000)])).unwrap();
    assert_eq!(c.resolve(&s("soup")), Err(ResolveError::CyclicReference));
}

#[test]
fn transitive_reference_is_cyclic() {
    let mut c = sandwich_catalog();
    c.add_composite_food(composite("a", vec![comp("bread", 1_000), comp("b", 1_000)])).unwrap();
    c.add_composite_food(composite("b", vec![comp("c", 2_000)])).unwrap();
    c.add_composite_food(composite("c", vec![comp("a", 1_000)])).unwrap();
    assert_eq!(c.resolve(&s("a")), Err(ResolveError::CyclicReference));
    assert_eq!(c.resolve(&s("b")), Err(ResolveError::CyclicReference));
}

#[test]
fn shared_component_is_not_a_cycle() {
    let mut c = sandwich_catalog();
    c.add_composite_food(composite("double", vec![comp("sandwich", 1_000), comp("sandwich", 1_000)])).unwrap();
    assert_eq!(c.resolve(&s("double")), Ok(485_000));
}

#[test]
fn duplicate_identifier_is_refused() {
    let mut c = sandwich_catalog();
    assert_eq!(c.add_basic_food(basic("bread", 1_000)), Err(CatalogError::DuplicateIdentifier));
    assert_eq!(c.len(), 3);
    assert_eq!(c.resolve(&s("bread")), Ok(80_000));
}

#[test]
fn huge_values_saturate() {
    let mut c = FoodCatalog::new();
    c.add_basic_food(basic("lard", u64::MAX)).unwrap();
    c.add_composite_food(composite("tub", vec![comp("lard", 5_000), comp("lard", 5_000)])).unwrap();
    assert_eq!(c.resolve(&s("tub")), Ok(u64::MAX));
}

#[test]
fn lookups_by_identifier() {
    let c = sandwich_catalog();
    assert!(matches!(c.get_food_by_name(&s("bread")), Some(Food::Basic(_))));
    assert!(c.get_food_by_name(&s("Bread")).is_none());
    assert_eq!(c.get_composite_food(&s("sandwich")).map(|f| f.components.len()), Some(2));
    assert!(c.get_composite_food(&s("bread")).is_none());
}

#[test]
fn daily_total_of_one_sandwich() {
    let c = sandwich_catalog();
    let date = Date::new(2024, 1, 1).unwrap();
    let mut log = DailyLog::new(date);
    log.food_entries.push(LogEntry::new(s("sandwich"), 1_000, 1_700_000_000));
    assert_eq!(total_calories(&log, &c), Ok(242_500));
}

#[test]
fn daily_total_ignores_unknown_food() {
    let c = sandwich_catalog();
    let mut log = DailyLog::new(Date::new(2024, 1, 2).unwrap());
    log.food_entries.push(LogEntry::new(s("bread"), 1_500, 1_700_000_000));
    log.food_entries.push(LogEntry::new(s("mystery"), 3_000, 1_700_000_000));
    assert_eq!(total_calories(&log, &c), Ok(120_000));
}

#[test]
fn daily_total_reports_cycle() {
    let mut c = sandwich_catalog();
    c.add_composite_food(composite("loop", vec![comp("loop", 1_000)])).unwrap();
    let mut log = DailyLog::new(Date::new(2024, 1, 3).unwrap());
    log.food_entries.push(LogEntry::new(s("bread"), 1_000, 1_700_000_000));
    log.food_entries.push(LogEntry::new(s("loop"), 1_000, 1_700_000_000));
    assert_eq!(total_calories(&log, &c), Err(ResolveError::CyclicReference));
}

#[test]
fn database_food_calories() {
    let mut db = Database::new();
    db.foods = sandwich_catalog();
    assert_eq!(db.get_food_calories(&s("sandwich")), Ok(Some(242_500)));
    assert_eq!(db.get_food_calories(&s("nothing")), Ok(None));
}
