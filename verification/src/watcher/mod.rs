pub mod describe_record;
pub mod watch;
pub mod misc;
pub mod run;
