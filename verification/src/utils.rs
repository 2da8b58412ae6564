pub mod calculation_utils;
pub mod quadrant_utils;
