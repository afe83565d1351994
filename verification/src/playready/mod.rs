//! PlayReady PSSH data: the binary framing of a PlayReady Object and the WRM header XML
//! that each rights-management record carries.

pub mod types;
pub mod wrm;
pub mod xml;
pub mod object;
