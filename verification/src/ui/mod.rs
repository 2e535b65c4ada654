pub mod toolbar;
