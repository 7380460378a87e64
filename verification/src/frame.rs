use vstd::prelude::*;

verus! {

/// A classic CAN data frame with a standard (11-bit) identifier.
///
/// The transport layer converts between this representation and whatever the
/// CAN driver uses; everything in this crate reads and builds frames in this
/// form.
#[derive(Debug, Clone)]
pub struct RawCanFrame {
    /// Communication object identifier (standard, 11-bit).
    pub cob_id: u16,
    /// Data bytes; a classic frame carries at most 8.
    pub data: Vec<u8>,
}

impl RawCanFrame {
    /// A standard identifier fits in 11 bits and a classic frame carries at
    /// most 8 data bytes.
    pub open spec fn wf(&self) -> bool {
        self.cob_id <= 0x7FF && self.data@.len() <= 8
    }
}

} // verus!
