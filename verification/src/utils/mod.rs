pub mod time;
