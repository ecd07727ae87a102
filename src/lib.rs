//! Verified pieces of an overhead-conductor ampacity calculation: the calendar
//! arithmetic behind the solar position, and the decisions of the monotone
//! root search (bracket growth, then bisection) that inverts the heat balance.
pub mod calendar;
pub mod search;
