use diet_manager::catalog::FoodCatalog;
use diet_manager::forms::{AddBasicFoodScreen, FoodFormError, LoginScreen, ProfileFormError, RegisterScreen};
use diet_manager::models::{ActivityLevel, CalorieCalculationMethod, Food, Gender};
use diet_manager::text::{parse_quantity, parse_whole, split_keywords};

fn form(id: &str, kws: &str, cal: &str) -> AddBasicFoodScreen {
    let mut f = AddBasicFoodScreen::new();
    f.new_food_id = id.to_string();
    f.new_food_keywords = kws.to_string();
    f.new_food_calories = cal.to_string();
    f
}

#[test]
fn quantities_parse_to_thousandths() {
    assert_eq!(parse_quantity("95"), Some(95_000));
    assert_eq!(parse_quantity("2.5"), Some(2_500));
    assert_eq!(parse_quantity(" 2.5"), None);
    assert_eq!(parse_quantity("2.5 "), None);
    assert_eq!(parse_quantity("0.125"), Some(125));
    assert_eq!(parse_quantity("0.05"), Some(50));
    assert_eq!(parse_quantity("999999999999999.999"), Some(999_999_999_999_999_999));
    assert_eq!(parse_quantity("1.2345"), None);
    assert_eq!(parse_quantity(".5"), None);
    assert_eq!(parse_quantity("5."), None);
    assert_eq!(parse_quantity("abc"), None);
    assert_eq!(parse_quantity("-3"), None);
    assert_eq!(parse_quantity(""), None);
    assert_eq!(parse_quantity("1234567890123456"), None);
    assert_eq!(parse_whole("42"), Some(42));
    assert_eq!(parse_whole("4.2"), None);
    assert_eq!(parse_whole(" 42"), None);
}

#[test]
fn keywords_split_on_commas() {
    assert_eq!(split_keywords(" fruit, sweet ,, "), vec!["fruit".to_string(), "sweet".to_string()]);
    assert_eq!(split_keywords("whole grain"), vec!["whole grain".to_string()]);
    assert!(split_keywords(" , ,").is_empty());
    assert_eq!(split_keywords("\u{A0}tea\u{3000},\u{B}milk"), vec!["tea".to_string(), "milk".to_string()]);
}

#[test]
fn saving_a_valid_food() {
    let mut c = FoodCatalog::new();
    let mut f = form("apple", "fruit, sweet", "95");
    assert!(f.save_food(&mut c));
    assert_eq!(f.error_message, None);
    assert!(f.new_food_id.is_empty());
    match c.get_food_by_name(&"apple".to_string()) {
        Some(Food::Basic(b)) => {
            assert_eq!(b.calories_per_serving, 95_000);
            assert_eq!(b.name, "apple");
            assert_eq!(b.keywords, vec!["fruit".to_string(), "sweet".to_string()]);
        },
        _ => panic!("apple was not added"),
    }
}

#[test]
fn each_form_error() {
    let mut c = FoodCatalog::new();
    assert!(form("apple", "fruit", "95").save_food(&mut c));
    let cases = [
        (form("  ", "fruit", "95"), FoodFormError::EmptyIdentifier),
        (form("pear", " ", "95"), FoodFormError::EmptyKeywords),
        (form("pear", "fruit", "lots"), FoodFormError::InvalidCalories),
        (form("pear", "fruit", "0"), FoodFormError::NonPositiveCalories),
        (form("apple", "fruit", "95"), FoodFormError::DuplicateIdentifier),
        (form("pear", ",,", "95"), FoodFormError::NoValidKeyword),
    ];
    for (mut f, expected) in cases {
        assert!(!f.save_food(&mut c));
        assert_eq!(f.error_message, Some(expected));
        assert!(!f.new_food_calories.is_empty());
    }
    assert_eq!(c.len(), 1);
}

#[test]
fn reset_empties_form() {
    let mut f = form("a", "b", "1");
    f.reset();
    assert!(f.new_food_id.is_empty() && f.new_food_keywords.is_empty() && f.new_food_calories.is_empty());
}

#[test]
fn registration_builds_profile() {
    let mut r = RegisterScreen::new();
    assert_eq!(r.gender, Gender::Male);
    assert_eq!(r.activity_level, ActivityLevel::Moderate);
    r.height_cm = "180.5".to_string();
    r.age = "40".to_string();
    r.weight_kg = "82".to_string();
    r.calorie_method = CalorieCalculationMethod::MifflinStJeor;
    let p = r.build_profile().unwrap();
    assert_eq!(p.height_cm, 180_500);
    assert_eq!(p.age, 40);
    assert_eq!(p.weight_kg, 82_000);
    assert_eq!(p.calorie_method, CalorieCalculationMethod::MifflinStJeor);
    r.age = "0".to_string();
    assert_eq!(r.build_profile(), Err(ProfileFormError::InvalidMetrics));
    r.age = "40".to_string();
    r.weight_kg = "heavy".to_string();
    assert_eq!(r.build_profile(), Err(ProfileFormError::InvalidMetrics));
    r.weight_kg = "5000000".to_string();
    assert_eq!(r.build_profile(), Err(ProfileFormError::InvalidMetrics));
}

#[test]
fn login_form_starts_empty() {
    let l = LoginScreen::new();
    assert!(l.username.is_empty() && l.password.is_empty() && l.error_message.is_none());
}

use diet_manager::forms::{AddCompositeFoodScreen, CompositeFormError};
use diet_manager::models::BasicFood;

fn pick(f: &mut AddCompositeFoodScreen, id: &str, servings: &str) {
    f.current_food_id = id.to_string();
    f.current_servings = servings.to_string();
    f.add_component();
}

#[test]
fn components_merge_by_food() {
    let mut f = AddCompositeFoodScreen::new();
    assert_eq!(f.current_servings, "1.0");
    pick(&mut f, "bread", "1");
    pick(&mut f, "chicken", "0.5");
    pick(&mut f, "bread", "1.0");
    assert_eq!(f.error_message, None);
    assert_eq!(f.selected_components.len(), 2);
    assert_eq!(f.selected_components[0].food_id, "bread");
    assert_eq!(f.selected_components[0].servings, 2_000);
    assert_eq!(f.selected_components[1].servings, 500);
    assert!(f.current_food_id.is_empty());
    assert_eq!(f.current_servings, "1.0");
}

#[test]
fn component_errors() {
    let mut f = AddCompositeFoodScreen::new();
    pick(&mut f, "", "1");
    assert_eq!(f.error_message, Some(CompositeFormError::NoFoodSelected));
    pick(&mut f, "bread", "0");
    assert_eq!(f.error_message, Some(CompositeFormError::InvalidServings));
    pick(&mut f, "bread", "two");
    assert_eq!(f.error_message, Some(CompositeFormError::InvalidServings));
    assert!(f.selected_components.is_empty());
}

#[test]
fn saving_a_composite_food() {
    let mut c = FoodCatalog::new();
    c.add_basic_food(BasicFood { id: "bread".to_string(), name: "Bread".to_string(), keywords: vec![], calories_per_serving: 80_000 }).unwrap();
    let mut f = AddCompositeFoodScreen::new();
    f.new_food_id = "toast".to_string();
    f.new_food_name = "Toast".to_string();
    assert!(!f.save_composite_food(&mut c));
    assert_eq!(f.error_message, Some(CompositeFormError::NoValidKeyword));
    f.new_food_keywords = "breakfast".to_string();
    assert!(!f.save_composite_food(&mut c));
    assert_eq!(f.error_message, Some(CompositeFormError::NoComponents));
    pick(&mut f, "bread", "2");
    f.new_food_id = "bread".to_string();
    assert!(!f.save_composite_food(&mut c));
    assert_eq!(f.error_message, Some(CompositeFormError::DuplicateIdentifier));
    f.new_food_id = "toast".to_string();
    f.new_food_name = " ".to_string();
    assert!(!f.save_composite_food(&mut c));
    assert_eq!(f.error_message, Some(CompositeFormError::EmptyName));
    f.new_food_name = "Toast".to_string();
    assert!(f.save_composite_food(&mut c));
    assert!(f.selected_components.is_empty() && f.new_food_id.is_empty());
    assert_eq!(c.resolve(&"toast".to_string()), Ok(160_000));
    let mut g = AddCompositeFoodScreen::new();
    assert!(!g.save_composite_food(&mut c));
    assert_eq!(g.error_message, Some(CompositeFormError::EmptyIdentifier));
}
