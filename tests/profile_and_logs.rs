use diet_manager::catalog::FoodCatalog;
use diet_manager::goals::{calculate_bmr, calculate_daily_goal, HarrisBenedictCalculator, MifflinStJeorCalculator};
use diet_manager::log::{DailyLog, DailyLogManager, Date, LogEntry};
use diet_manager::models::{ActivityLevel, BasicFood, CalorieCalculationMethod, Gender, UserProfile};

fn profile(gender: Gender, method: CalorieCalculationMethod, activity: ActivityLevel) -> UserProfile {
    UserProfile::new(gender, 175_000, 30, 70_000, activity, method)
}

#[test]
fn harris_benedict_male() {
    let p = profile(Gender::Male, CalorieCalculationMethod::HarrisBenedict, ActivityLevel::Moderate);
    assert_eq!(HarrisBenedictCalculator.calculate_bmr(&p), 1_695_667_000);
    assert_eq!(HarrisBenedictCalculator.calculate_tdee(&p), 2_628_283_850_000);
    assert_eq!(p.calculate_target_calories(), 2_628_283_850_000);
}

#[test]
fn harris_benedict_female() {
    let p = profile(Gender::Female, CalorieCalculationMethod::HarrisBenedict, ActivityLevel::Sedentary);
    // 447.593 + 9.247*70 + 3.098*175 - 4.33*30 = 1507.133
    assert_eq!(calculate_bmr(&p), 1_507_133_000);
    // 1507.133 * 1.2 = 1808.5596
    assert_eq!(p.calculate_target_calories(), 1_808_559_600_000);
}

#[test]
fn mifflin_st_jeor_dispatch() {
    let p = profile(Gender::Male, CalorieCalculationMethod::MifflinStJeor, ActivityLevel::Moderate);
    assert_eq!(MifflinStJeorCalculator.calculate_bmr(&p), 1_648_750_000);
    assert_eq!(calculate_bmr(&p), 1_648_750_000);
    assert_eq!(p.calculate_target_calories(), 2_555_562_500_000);
    let f = profile(Gender::Female, CalorieCalculationMethod::MifflinStJeor, ActivityLevel::ExtraActive);
    // (1648.75 - 5 - 161) * 1.9 = 2817.225
    assert_eq!(f.calculate_target_calories(), 2_817_225_000_000);
}

#[test]
fn activity_multipliers() {
    let levels = [
        (ActivityLevel::Sedentary, 1_200),
        (ActivityLevel::Light, 1_375),
        (ActivityLevel::Moderate, 1_550),
        (ActivityLevel::VeryActive, 1_725),
        (ActivityLevel::ExtraActive, 1_900),
    ];
    for (level, m) in levels {
        let p = profile(Gender::Male, CalorieCalculationMethod::MifflinStJeor, level);
        assert_eq!(p.calculate_target_calories(), 1_648_750_000 * m);
    }
}

#[test]
fn daily_goal_uses_given_weight_and_activity() {
    let p = profile(Gender::Male, CalorieCalculationMethod::MifflinStJeor, ActivityLevel::Sedentary);
    // (10*80 + 6.25*175 - 5*30 + 5) * 1.725 = 3016.59375
    assert_eq!(calculate_daily_goal(&p, 80_000, ActivityLevel::VeryActive), 3_016_593_750_000);
}

#[test]
fn negative_rate_stays_exact() {
    let p = UserProfile::new(Gender::Female, 0, 1_000, 0, ActivityLevel::Light, CalorieCalculationMethod::MifflinStJeor);
    // -5000 - 161 = -5161; * 1.375 = -7096.375
    assert_eq!(calculate_bmr(&p), -5_161_000_000);
    assert_eq!(p.calculate_target_calories(), -7_096_375_000_000);
}

#[test]
fn tiny_rate_still_grows_with_activity() {
    let mut p = UserProfile::new(Gender::Male, 797, 2, 2, ActivityLevel::Sedentary, CalorieCalculationMethod::MifflinStJeor);
    assert_eq!(calculate_bmr(&p), 1_250);
    let sedentary = p.calculate_target_calories();
    p.update_activity_level(ActivityLevel::Light);
    let light = p.calculate_target_calories();
    assert_eq!(sedentary, 1_500_000);
    assert_eq!(light, 1_718_750);
    assert!(sedentary < light);
}

#[test]
fn profile_updates() {
    let mut p = profile(Gender::Male, CalorieCalculationMethod::HarrisBenedict, ActivityLevel::Moderate);
    p.update_weight(80_000);
    p.update_age(31);
    p.update_activity_level(ActivityLevel::Light);
    p.update_calculation_method(CalorieCalculationMethod::MifflinStJeor);
    assert_eq!(p.weight_kg, 80_000);
    assert_eq!(p.age, 31);
    assert_eq!(p.activity_level, ActivityLevel::Light);
    assert_eq!(p.calorie_method, CalorieCalculationMethod::MifflinStJeor);
    assert_eq!(p.height_cm, 175_000);
}

#[test]
fn calendar_dates() {
    assert!(Date::new(2024, 1, 1).is_some());
    assert!(Date::new(2024, 2, 29).is_some());
    assert!(Date::new(2023, 2, 29).is_none());
    assert!(Date::new(2024, 13, 1).is_none());
    assert!(Date::new(2024, 4, 31).is_none());
    assert!(Date::new(2024, 1, 0).is_none());
    assert!(Date::new(1900, 2, 29).is_none());
    assert!(Date::new(2000, 2, 29).is_some());
    assert!(Date::new(-4, 2, 29).is_some());
}

#[test]
fn entries_are_stamped() {
    let e = LogEntry::new("bread".to_string(), 1_000, 1_700_000_000);
    assert_eq!(e.timestamp, Some(1_700_000_000));
    let mut m = DailyLogManager::new(vec![], Date::new(2024, 6, 1).unwrap());
    m.add_food_entry(&"bread".to_string(), 1_000, Some(42));
    m.add_food_entry(&"jam".to_string(), 1_000, None);
    assert_eq!(m.get_current_log().food_entries[0].timestamp, Some(42));
    assert_eq!(m.get_current_log().food_entries[1].timestamp, None);
}

fn catalog() -> FoodCatalog {
    let mut c = FoodCatalog::new();
    c.add_basic_food(BasicFood { id: "bread".to_string(), name: "bread".to_string(), keywords: vec![], calories_per_serving: 80_000 }).unwrap();
    c
}

#[test]
fn log_manager_tracks_current_date() {
    let d1 = Date::new(2024, 1, 1).unwrap();
    let d2 = Date::new(2024, 1, 2).unwrap();
    let mut m = DailyLogManager::new(vec![DailyLog::new(d2)], d1);
    assert_eq!(m.get_all_logs().len(), 2);
    assert_eq!(m.get_current_date(), d1);
    m.add_food_entry(&"bread".to_string(), 2_000, None);
    m.add_food_entry(&"jam".to_string(), 1_000, None);
    assert_eq!(m.get_current_log().food_entries.len(), 2);
    assert_eq!(m.calculate_calories_consumed(&catalog()), Ok(160_000));
    m.delete_food_entry(5);
    assert_eq!(m.get_current_log().food_entries.len(), 2);
    m.delete_food_entry(0);
    assert_eq!(m.get_current_log().food_entries[0].food_name, "jam");
    assert_eq!(m.calculate_calories_consumed(&catalog()), Ok(0));
    m.set_current_date(d2);
    assert!(m.get_current_log().food_entries.is_empty());
    assert_eq!(m.get_all_logs().len(), 2);
}

#[test]
fn log_manager_notes_weight_and_activity() {
    let d = Date::new(2024, 3, 1).unwrap();
    let mut m = DailyLogManager::new(vec![], d);
    assert_eq!(m.update_weight(70_000), None);
    assert_eq!(m.update_weight(71_000), Some(70_000));
    assert_eq!(m.update_activity_level(ActivityLevel::Light), None);
    assert_eq!(m.update_activity_level(ActivityLevel::Moderate), Some(ActivityLevel::Light));
    assert_eq!(m.get_current_log().weight, Some(71_000));
    let mut replacement = DailyLog::new(Date::new(1999, 1, 1).unwrap());
    replacement.food_entries.push(LogEntry::new("bread".to_string(), 500, 1_700_000_000));
    m.update_current_log(&replacement);
    assert_eq!(m.get_current_log().date, d);
    assert_eq!(m.get_current_log().weight, None);
    assert_eq!(m.calculate_calories_consumed(&catalog()), Ok(40_000));
}

#[test]
fn calorie_summary_uses_day_notes() {
    let d = Date::new(2024, 5, 1).unwrap();
    let mut m = DailyLogManager::new(vec![], d);
    m.add_food_entry(&"bread".to_string(), 10_000, None);
    let p = profile(Gender::Male, CalorieCalculationMethod::MifflinStJeor, ActivityLevel::Moderate);
    let s = m.calorie_summary(&catalog(), &p).unwrap();
    assert_eq!(s.consumed, 800_000_000_000);
    assert_eq!(s.goal, 2_555_562_500_000);
    assert_eq!(s.remaining, 1_755_562_500_000);
    m.update_weight(80_000);
    m.update_activity_level(ActivityLevel::VeryActive);
    let s = m.calorie_summary(&catalog(), &p).unwrap();
    assert_eq!(s.goal, 3_016_593_750_000);
    assert_eq!(s.remaining, 2_216_593_750_000);
}

#[test]
fn dates_parse_from_text() {
    assert_eq!(Date::parse("2024-02-29"), Date::new(2024, 2, 29));
    assert_eq!(Date::parse("2024-01-05"), Some(Date { year: 2024, month: 1, day: 5 }));
    assert!(Date::parse("2023-02-29").is_none());
    assert!(Date::parse("2024-13-01").is_none());
    assert!(Date::parse("yesterday").is_none());
}
