use diet_manager::catalog::FoodCatalog;
use diet_manager::models::{BasicFood, CompositeFood, Food, FoodComponent};
use diet_manager::search::{search_foods, search_foods_by_name};

fn s(x: &str) -> String {
    x.to_string()
}

fn tagged(id: &str, tags: &[&str]) -> BasicFood {
    BasicFood {
        id: s(id),
        name: s(id),
        keywords: tags.iter().map(|t| s(t)).collect(),
        calories_per_serving: 100_000,
    }
}

fn ids(foods: &[Food]) -> Vec<String> {
    foods.iter().map(|f| f.id().clone()).collect()
}

fn catalog() -> FoodCatalog {
    let mut c = FoodCatalog::new();
    c.add_basic_food(tagged("Apple", &["fruit", "sweet"])).unwrap();
    c.add_basic_food(tagged("Chicken Breast", &["meat", "protein"])).unwrap();
    c.add_composite_food(CompositeFood {
        id: s("Fruit Salad"),
        name: s("Fruit Salad"),
        keywords: vec![s("dessert")],
        components: vec![FoodComponent { food_id: s("Apple"), servings: 2_000 }],
    })
    .unwrap();
    c
}

#[test]
fn partial_keyword_finds_fruit_only() {
    let mut c = FoodCatalog::new();
    c.add_basic_food(tagged("Apple", &["fruit", "sweet"])).unwrap();
    c.add_basic_food(tagged("Chicken Breast", &["meat", "protein"])).unwrap();
    let r = search_foods(&c, &vec![s("fru")], false);
    assert_eq!(ids(&r), vec![s("Apple")]);
}

#[test]
fn empty_query_returns_everything_in_both_modes() {
    let c = catalog();
    let all = vec![s("Apple"), s("Chicken Breast"), s("Fruit Salad")];
    assert_eq!(ids(&search_foods(&c, &vec![], false)), all);
    assert_eq!(ids(&search_foods(&c, &vec![], true)), all);
}

#[test]
fn search_is_case_insensitive() {
    let c = catalog();
    assert_eq!(ids(&search_foods(&c, &vec![s("FRU")], false)), vec![s("Apple"), s("Fruit Salad")]);
    assert_eq!(ids(&search_foods(&c, &vec![s("PROTEIN")], true)), vec![s("Chicken Breast")]);
}

#[test]
fn name_is_a_haystack() {
    let c = catalog();
    assert_eq!(ids(&search_foods(&c, &vec![s("breast")], false)), vec![s("Chicken Breast")]);
}

#[test]
fn all_mode_is_within_any_mode() {
    let c = catalog();
    let q = vec![s("fruit"), s("sweet")];
    let any = ids(&search_foods(&c, &q, false));
    let all = ids(&search_foods(&c, &q, true));
    assert_eq!(any, vec![s("Apple"), s("Fruit Salad")]);
    assert_eq!(all, vec![s("Apple")]);
    assert!(all.iter().all(|x| any.contains(x)));
}

#[test]
fn no_keyword_hits() {
    let c = catalog();
    assert!(search_foods(&c, &vec![s("pasta")], false).is_empty());
    assert!(search_foods(&c, &vec![s("fruit"), s("pasta")], true).is_empty());
}

#[test]
fn matches_keywords_on_each_kind() {
    let apple = tagged("Apple", &["fruit"]);
    assert!(apple.matches_keywords(&vec![s("FRUIT")], true));
    assert!(!apple.matches_keywords(&vec![s("fruit"), s("meat")], true));
    assert!(apple.matches_keywords(&vec![s("fruit"), s("meat")], false));
    assert!(apple.matches_keywords(&vec![], true));
    let food = Food::Basic(apple);
    assert!(food.matches_keywords(&vec![s("app")], false));
}

#[test]
fn name_search_skips_tags() {
    let c = catalog();
    assert_eq!(ids(&search_foods_by_name(&c, &s("FRUIT"))), vec![s("Fruit Salad")]);
    assert_eq!(ids(&search_foods_by_name(&c, &s("an"))), Vec::<String>::new());
    assert_eq!(ids(&search_foods_by_name(&c, &s(""))).len(), 3);
}
