pub mod latest;
