//! Decoders for the bodies of ISO-BMFF and QuickTime boxes.
pub mod blin;
pub mod corg;
pub mod dadj;
pub mod equi;
pub mod frma;
pub mod hequ;
pub mod hero;
pub mod hfov;
pub mod lnhd;
pub mod pkin;
pub mod prji;
pub mod rdim;
pub mod stri;
pub mod dvvc;
pub mod dvcc;
pub mod dac3;
pub mod setu;
pub mod loca;
pub mod keyd;
pub mod must;
pub mod dtyp;
pub mod tenc;
pub mod schm;
pub mod lac4;
pub mod senc;
pub mod dec3;
pub mod dac4;
pub mod colr;
pub mod uqua;
pub mod lfad;
pub mod ldst;
pub mod lnin;
