pub mod layout;
