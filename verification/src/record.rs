//! The two kinds of state the ledger keeps: the singleton sequence counter
//! and the immutable impact records, together with the errors the core
//! reports.

use vstd::prelude::*;
use vstd::utf8::encode_utf8;

verus! {

/// Every text field of a record may occupy at most this many bytes once
/// encoded as UTF-8.
pub const MAX_FIELD_BYTES: usize = 64;

/// The errors the core reports. Every failure aborts the whole operation;
/// no partial state change survives.
#[derive(Clone, Copy, Debug, PartialEq, Eq, Structural)]
pub enum ErrorCode {
    /// Advancing the counter would exceed the unsigned 64-bit range.
    CounterOverflow,
    /// The storage slot for the requested index is already occupied.
    DuplicateAllocation,
    /// A text field exceeds its fixed byte budget.
    EncodingTooLarge,
}

/// The singleton counter tracking how many records have been created.
pub struct ImpactCounter {
    pub count: u64,
}

/// One immutable donation event.
pub struct Impact {
    pub donor: String,
    pub ngo: String,
    pub medicine: String,
    pub quantity: u64,
    pub timestamp: i64,
}

/// The mathematical value of a record: its texts as character sequences and
/// its two integers.
pub ghost struct ImpactView {
    pub donor: Seq<char>,
    pub ngo: Seq<char>,
    pub medicine: Seq<char>,
    pub quantity: u64,
    pub timestamp: i64,
}

impl ImpactView {
    /// A record is well formed when each of its three texts fits its fixed
    /// byte budget.
    pub open spec fn wf(self) -> bool {
        &&& encode_utf8(self.donor).len() <= MAX_FIELD_BYTES
        &&& encode_utf8(self.ngo).len() <= MAX_FIELD_BYTES
        &&& encode_utf8(self.medicine).len() <= MAX_FIELD_BYTES
    }
}

impl View for Impact {
    type V = ImpactView;

    open spec fn view(&self) -> ImpactView {
        ImpactView {
            donor: self.donor@,
            ngo: self.ngo@,
            medicine: self.medicine@,
            quantity: self.quantity,
            timestamp: self.timestamp,
        }
    }
}

impl DeepView for Impact {
    type V = ImpactView;

    open spec fn deep_view(&self) -> ImpactView {
        self.view()
    }
}

impl ImpactCounter {
    /// A fresh counter starts at zero.
    pub fn new() -> (c: ImpactCounter)
        ensures
            c.count == 0,
    {
        ImpactCounter { count: 0 }
    }

    /// Advance the counter by exactly one, checked for overflow. On success
    /// the previous value is returned: it is the index the caller just
    /// consumed. At the top of the range nothing changes.
    pub fn advance(&mut self) -> (r: Result<u64, ErrorCode>)
        ensures
            match r {
                Ok(i) => {
                    &&& old(self).count < u64::MAX
                    &&& i == old(self).count
                    &&& final(self).count == old(self).count + 1
                },
                Err(e) => {
                    &&& e == ErrorCode::CounterOverflow
                    &&& old(self).count == u64::MAX
                    &&& final(self).count == old(self).count
                },
            },
    {
        if self.count == u64::MAX {
            Err(ErrorCode::CounterOverflow)
        } else {
            let i = self.count;
            self.count = i + 1;
            Ok(i)
        }
    }
}

impl Impact {
    /// The fixed allocation size of one record's envelope: an 8-byte tag,
    /// three length-prefixed texts at their maximum, and the two 8-byte
    /// integers. The byte layout lives in lockstep with this constant.
    pub const MAX_SIZE: usize = 8 + (4 + 64) * 3 + 8 + 8;

    /// Build a record from the five supplied field values, validating each
    /// text against its byte budget. The fields are stored verbatim: no
    /// truncation ever happens.
    pub fn new(
        donor: String,
        ngo: String,
        medicine: String,
        quantity: u64,
        timestamp: i64,
    ) -> (r: Result<Impact, ErrorCode>)
        ensures
            match r {
                Ok(rec) => {
                    &&& rec@ == (ImpactView {
                        donor: donor@,
                        ngo: ngo@,
                        medicine: medicine@,
                        quantity,
                        timestamp,
                    })
                    &&& rec@.wf()
                },
                Err(e) => {
                    &&& e == ErrorCode::EncodingTooLarge
                    &&& !(ImpactView {
                        donor: donor@,
                        ngo: ngo@,
                        medicine: medicine@,
                        quantity,
                        timestamp,
                    }).wf()
                },
            },
    {
        if donor.as_str().as_bytes_vec().len() > MAX_FIELD_BYTES
            || ngo.as_str().as_bytes_vec().len() > MAX_FIELD_BYTES
            || medicine.as_str().as_bytes_vec().len() > MAX_FIELD_BYTES {
            Err(ErrorCode::EncodingTooLarge)
        } else {
            Ok(Impact { donor, ngo, medicine, quantity, timestamp })
        }
    }
}

} // verus!
