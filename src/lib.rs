//! Selection logic of a fuzzy-search picker: the search context, the state
//! machine that turns classified key presses into a new selection and an
//! action, and the mapping from filtered positions back to original items.

pub mod context;
pub mod window;
