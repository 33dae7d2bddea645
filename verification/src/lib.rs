pub mod corpus;
pub mod model;
pub mod site;
pub mod validate;
pub mod views;
pub mod when;
