pub mod pathtypes;
pub mod storage;
