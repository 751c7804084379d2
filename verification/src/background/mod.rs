pub mod monitor_task;
