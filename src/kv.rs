pub mod storage;
