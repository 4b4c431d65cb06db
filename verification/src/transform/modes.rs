//! The passes over the road, one for each mode of travel.

pub mod bicycle;
pub mod bus;
pub mod foot_shoulder;
pub mod non_motorized;
pub mod parking;
