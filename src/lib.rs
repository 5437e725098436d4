//! Presentations of finite categories and the two flavours of discrete double
//! theory built on them: the plain discrete theory and the theory with
//! tabulators.

pub mod discrete;
pub mod fin_category;
pub mod symbol;
pub mod tabulator;
pub mod theories;

pub use discrete::DiscreteDblTheory;
pub use fin_category::{CategoryError, Composite, FinCategory, FinHom, HomGenerator};
pub use symbol::Symbol;
pub use tabulator::{DiscreteTabTheory, TabMorType, TabObType};
pub use theories::{th_category, th_category_links, th_schema, th_signed_category};
