use vstd::prelude::*;
use crate::models::{ActivityLevel, CalorieCalculationMethod, Gender, UserProfile};

verus! {

// Units: body metrics come in thousandths (of a kilogram, of a centimetre),
// the formulas' coefficients in thousandths, so a basal rate is an exact
// integer in millionths of a kilocalorie; times a multiplier in thousandths,
// a daily target is an exact integer in billionths of a kilocalorie.

/// Harris-Benedict basal metabolic rate in millionths of a kilocalorie per day.
pub open spec fn harris_benedict_micro(p: UserProfile) -> int {
    match p.gender {
        Gender::Male => 88_362_000 + 13_397 * p.weight_kg + 4_799 * p.height_cm - 5_677_000 * p.age,
        Gender::Female => 447_593_000 + 9_247 * p.weight_kg + 3_098 * p.height_cm - 4_330_000 * p.age,
    }
}

/// Mifflin-St Jeor basal metabolic rate in millionths of a kilocalorie per day.
pub open spec fn mifflin_st_jeor_micro(p: UserProfile) -> int {
    10_000 * p.weight_kg + 6_250 * p.height_cm - 5_000_000 * p.age + match p.gender {
        Gender::Male => 5_000_000int,
        Gender::Female => -161_000_000int,
    }
}

/// Basal metabolic rate of the profile's own formula, in millionths of a kilocalorie.
pub open spec fn bmr_micro(p: UserProfile) -> int {
    match p.calorie_method {
        CalorieCalculationMethod::HarrisBenedict => harris_benedict_micro(p),
        CalorieCalculationMethod::MifflinStJeor => mifflin_st_jeor_micro(p),
    }
}

/// Activity multiplier in thousandths.
pub open spec fn multiplier_spec(a: ActivityLevel) -> int {
    match a {
        ActivityLevel::Sedentary => 1200,
        ActivityLevel::Light => 1375,
        ActivityLevel::Moderate => 1550,
        ActivityLevel::VeryActive => 1725,
        ActivityLevel::ExtraActive => 1900,
    }
}

/// Position of an activity level, from sedentary up.
pub open spec fn activity_rank(a: ActivityLevel) -> int {
    match a {
        ActivityLevel::Sedentary => 0,
        ActivityLevel::Light => 1,
        ActivityLevel::Moderate => 2,
        ActivityLevel::VeryActive => 3,
        ActivityLevel::ExtraActive => 4,
    }
}

/// Daily energy expenditure, exactly: a basal rate in millionths times the
/// activity multiplier in thousandths, in billionths of a kilocalorie.
pub open spec fn tdee_nano(bmr: int, a: ActivityLevel) -> int {
    bmr * multiplier_spec(a)
}

/// Daily calorie target of a profile, in billionths of a kilocalorie: the
/// basal rate of its formula times its activity multiplier.
pub open spec fn daily_target(p: UserProfile) -> int {
    tdee_nano(bmr_micro(p), p.activity_level)
}

/// With a positive basal rate, a more active level gives a strictly higher
/// daily target, all else equal.
pub proof fn lemma_target_grows_with_activity(p: UserProfile, a: ActivityLevel)
    requires
        bmr_micro(p) > 0,
        activity_rank(p.activity_level) < activity_rank(a),
    ensures
        daily_target(p) < daily_target(UserProfile { activity_level: a, ..p }),
{
    let b = bmr_micro(p);
    let q = UserProfile { activity_level: a, ..p };
    assert(bmr_micro(q) == b);
    assert(multiplier_spec(p.activity_level) < multiplier_spec(a));
    assert(b * multiplier_spec(p.activity_level) < b * multiplier_spec(a)) by (nonlinear_arith)
        requires
            b > 0,
            multiplier_spec(p.activity_level) < multiplier_spec(a),
    ;
}

/// The activity multiplier in thousandths.
pub fn activity_multiplier(a: ActivityLevel) -> (r: i64)
    ensures
        r == multiplier_spec(a),
{
    match a {
        ActivityLevel::Sedentary => 1200,
        ActivityLevel::Light => 1375,
        ActivityLevel::Moderate => 1550,
        ActivityLevel::VeryActive => 1725,
        ActivityLevel::ExtraActive => 1900,
    }
}

/// Daily energy expenditure in billionths from a basal rate in millionths.
fn tdee_of(bmr: i64, a: ActivityLevel) -> (r: i128)
    requires
        -100_000_000_000_000_000 <= bmr <= 100_000_000_000_000_000,
    ensures
        r == tdee_nano(bmr as int, a),
{
    let m = activity_multiplier(a) as i128;
    let b = bmr as i128;
    assert(-190_000_000_000_000_000_000 <= b * m <= 190_000_000_000_000_000_000) by (nonlinear_arith)
        requires
            -100_000_000_000_000_000 <= b <= 100_000_000_000_000_000,
            1200 <= m <= 1900,
    ;
    b * m
}

/// The Harris-Benedict formula.
pub struct HarrisBenedictCalculator;

/// The Mifflin-St Jeor formula.
pub struct MifflinStJeorCalculator;

impl HarrisBenedictCalculator {
    /// Basal metabolic rate in millionths of a kilocalorie per day.
    pub fn calculate_bmr(&self, profile: &UserProfile) -> (r: i64)
        ensures
            r == harris_benedict_micro(*profile),
            -100_000_000_000_000_000 <= r <= 100_000_000_000_000_000,
    {
        let w = profile.weight_kg as i64;
        let h = profile.height_cm as i64;
        let a = profile.age as i64;
        match profile.gender {
            Gender::Male => 88_362_000 + 13_397 * w + 4_799 * h - 5_677_000 * a,
            Gender::Female => 447_593_000 + 9_247 * w + 3_098 * h - 4_330_000 * a,
        }
    }

    /// Daily energy expenditure: basal rate times the activity multiplier, in billionths.
    pub fn calculate_tdee(&self, profile: &UserProfile) -> (r: i128)
        ensures
            r == tdee_nano(harris_benedict_micro(*profile), profile.activity_level),
    {
        tdee_of(self.calculate_bmr(profile), profile.activity_level)
    }
}

impl MifflinStJeorCalculator {
    /// Basal metabolic rate in millionths of a kilocalorie per day.
    pub fn calculate_bmr(&self, profile: &UserProfile) -> (r: i64)
        ensures
            r == mifflin_st_jeor_micro(*profile),
            -100_000_000_000_000_000 <= r <= 100_000_000_000_000_000,
    {
        let w = profile.weight_kg as i64;
        let h = profile.height_cm as i64;
        let a = profile.age as i64;
        let gender_factor: i64 = match profile.gender {
            Gender::Male => 5_000_000,
            Gender::Female => -161_000_000,
        };
        10_000 * w + 6_250 * h - 5_000_000 * a + gender_factor
    }

    /// Daily energy expenditure: basal rate times the activity multiplier, in billionths.
    pub fn calculate_tdee(&self, profile: &UserProfile) -> (r: i128)
        ensures
            r == tdee_nano(mifflin_st_jeor_micro(*profile), profile.activity_level),
    {
        tdee_of(self.calculate_bmr(profile), profile.activity_level)
    }
}

/// Basal metabolic rate by the profile's own formula, in millionths of a kilocalorie.
pub fn calculate_bmr(profile: &UserProfile) -> (r: i64)
    ensures
        r == bmr_micro(*profile),
{
    match profile.calorie_method {
        CalorieCalculationMethod::HarrisBenedict => HarrisBenedictCalculator.calculate_bmr(profile),
        CalorieCalculationMethod::MifflinStJeor => MifflinStJeorCalculator.calculate_bmr(profile),
    }
}

/// Daily calorie target of `profile` with its weight and activity level
/// replaced by `weight_kg` and `activity_level`, in billionths of a kilocalorie.
pub fn calculate_daily_goal(profile: &UserProfile, weight_kg: u32, activity_level: ActivityLevel) -> (r: i128)
    ensures
        r == daily_target(UserProfile { weight_kg, activity_level, ..*profile }),
{
    let p = UserProfile { weight_kg, activity_level, ..*profile };
    p.calculate_target_calories()
}

impl UserProfile {
    /// Daily calorie target, in billionths of a kilocalorie: the basal rate of
    /// the profile's formula times its activity multiplier, exactly.
    pub fn calculate_target_calories(&self) -> (r: i128)
        ensures
            r == daily_target(*self),
    {
        match self.calorie_method {
            CalorieCalculationMethod::HarrisBenedict => HarrisBenedictCalculator.calculate_tdee(self),
            CalorieCalculationMethod::MifflinStJeor => MifflinStJeorCalculator.calculate_tdee(self),
        }
    }
}

} // verus!
