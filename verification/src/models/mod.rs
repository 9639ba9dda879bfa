//! The records that frames carry.

pub mod humiture_data_v2;
pub mod humiture_datas;
