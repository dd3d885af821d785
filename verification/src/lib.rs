//! Workout analytics and gamification engine for a fitness-tracking backend.
//!
//! The library turns raw logged sets and profile data into derived results:
//! basal-metabolic-rate and daily-energy figures, personal-record
//! classification of a newly logged set, activity streaks, energy estimates
//! for a finished workout, badge awards, and a ranked volume leaderboard.
//! All quantities of weight are carried in hundredths of a kilogram so that
//! every computation is exact integer arithmetic.

pub mod badges;
pub mod dates;
pub mod energy;
pub mod leaderboard;
pub mod num;
pub mod nutrition;
pub mod profile;
pub mod records;
pub mod social;
pub mod streaks;
pub mod text;
pub mod workouts;
