use crate::error::CustomError;
use vstd::prelude::*;

verus! {

/// One tagged sensor reading: the sensor's id and its value, widened to 64
/// bits whatever its width on the wire.
#[derive(Debug, Clone, Copy, PartialEq, Eq, Structural)]
pub struct IoElementValue {
    pub id: u8,
    pub value: u64,
}

/// A GPS fix. Longitude and latitude are kept as they are sent: signed
/// fixed-point degrees, in units of one ten-millionth of a degree.
#[derive(Debug, Clone, Copy, PartialEq, Eq, Structural)]
pub struct GPSElement {
    pub longitude: i32,
    pub latitude: i32,
    pub altitude: u16,
    pub angle: u16,
    pub visible_satellites: u8,
    pub speed: u16,
}

/// The I/O readings of one record, grouped by the width of their values.
#[derive(Debug, Clone, PartialEq)]
pub struct IoElement {
    pub event_io_id: u8,
    pub number_of_total_io: u8,
    pub number_of_1_byte_elements: u8,
    pub io_1_byte_elements: Option<Vec<IoElementValue>>,
    pub number_of_2_byte_elements: u8,
    pub io_2_byte_elements: Option<Vec<IoElementValue>>,
    pub number_of_4_byte_elements: u8,
    pub io_4_byte_elements: Option<Vec<IoElementValue>>,
    pub number_of_8_byte_elements: u8,
    pub io_8_byte_elements: Option<Vec<IoElementValue>>,
}

/// What an [`IoElement`] holds: the two header bytes and the four groups, each
/// in wire order.
pub struct IoElementView {
    pub event_io_id: u8,
    pub number_of_total_io: u8,
    pub io_1_byte_elements: Seq<IoElementValue>,
    pub io_2_byte_elements: Seq<IoElementValue>,
    pub io_4_byte_elements: Seq<IoElementValue>,
    pub io_8_byte_elements: Seq<IoElementValue>,
}

/// The readings of a group; an absent group holds none.
pub open spec fn group_view(group: Option<Vec<IoElementValue>>) -> Seq<IoElementValue> {
    match group {
        Some(v) => v@,
        None => Seq::empty(),
    }
}

impl IoElementView {
    /// How many readings the four groups hold together.
    pub open spec fn total(self) -> nat {
        self.io_1_byte_elements.len() + self.io_2_byte_elements.len()
            + self.io_4_byte_elements.len() + self.io_8_byte_elements.len()
    }
}

impl View for IoElement {
    type V = IoElementView;

    open spec fn view(&self) -> IoElementView {
        IoElementView {
            event_io_id: self.event_io_id,
            number_of_total_io: self.number_of_total_io,
            io_1_byte_elements: group_view(self.io_1_byte_elements),
            io_2_byte_elements: group_view(self.io_2_byte_elements),
            io_4_byte_elements: group_view(self.io_4_byte_elements),
            io_8_byte_elements: group_view(self.io_8_byte_elements),
        }
    }
}

impl IoElement {
    /// Every group is present and holds as many readings as its count says.
    pub open spec fn wf(&self) -> bool {
        &&& self.io_1_byte_elements is Some
        &&& self.io_2_byte_elements is Some
        &&& self.io_4_byte_elements is Some
        &&& self.io_8_byte_elements is Some
        &&& self.number_of_1_byte_elements == self@.io_1_byte_elements.len()
        &&& self.number_of_2_byte_elements == self@.io_2_byte_elements.len()
        &&& self.number_of_4_byte_elements == self@.io_4_byte_elements.len()
        &&& self.number_of_8_byte_elements == self@.io_8_byte_elements.len()
    }

    /// The advisory total is the number of readings that the four groups
    /// hold together.
    pub open spec fn spec_total_is_consistent(&self) -> bool {
        self.number_of_total_io == self@.total()
    }

    /// Whether the advisory total equals the number of readings held. The
    /// decoder hands the total on as sent; this is the check it leaves to the
    /// caller.
    #[verifier::when_used_as_spec(spec_total_is_consistent)]
    pub fn total_is_consistent(&self) -> (b: bool)
        requires
            self.wf(),
        ensures
            b == self.spec_total_is_consistent(),
    {
        let held: u16 = self.number_of_1_byte_elements as u16
            + self.number_of_2_byte_elements as u16 + self.number_of_4_byte_elements as u16
            + self.number_of_8_byte_elements as u16;
        self.number_of_total_io as u16 == held
    }
}

/// One AVL record: when, how urgent, where, and what the sensors read.
#[derive(Debug, Clone, PartialEq)]
pub struct AVLData {
    pub timestamp: u64,
    pub priority: u8,
    pub gps: GPSElement,
    pub io: IoElement,
}

/// What an [`AVLData`] holds.
pub struct AVLDataView {
    pub timestamp: u64,
    pub priority: u8,
    pub gps: GPSElement,
    pub io: IoElementView,
}

impl View for AVLData {
    type V = AVLDataView;

    open spec fn view(&self) -> AVLDataView {
        AVLDataView {
            timestamp: self.timestamp,
            priority: self.priority,
            gps: self.gps,
            io: self.io@,
        }
    }
}

impl AVLData {
    /// The I/O block of the record is well formed.
    pub open spec fn wf(&self) -> bool {
        self.io.wf()
    }
}

/// The records of a frame, each by what it holds.
pub open spec fn records_view(records: Seq<AVLData>) -> Seq<AVLDataView> {
    Seq::new(records.len(), |i: int| records[i]@)
}

/// One decoded Codec 8 frame.
#[derive(Debug, Clone, PartialEq)]
pub struct TeltonikaCodec8 {
    pub data_length: u32,
    pub codec_id: u8,
    pub number_of_data: u8,
    pub avl_data: Vec<AVLData>,
}

/// What a [`TeltonikaCodec8`] holds.
pub struct TeltonikaCodec8View {
    pub data_length: u32,
    pub codec_id: u8,
    pub number_of_data: u8,
    pub avl_data: Seq<AVLDataView>,
}

impl View for TeltonikaCodec8 {
    type V = TeltonikaCodec8View;

    open spec fn view(&self) -> TeltonikaCodec8View {
        TeltonikaCodec8View {
            data_length: self.data_length,
            codec_id: self.codec_id,
            number_of_data: self.number_of_data,
            avl_data: records_view(self.avl_data@),
        }
    }
}

impl TeltonikaCodec8 {
    /// The codec is 8, there are as many records as the count says, and each
    /// record is well formed.
    pub open spec fn wf(&self) -> bool {
        &&& self.codec_id == 8
        &&& self.avl_data@.len() == self.number_of_data
        &&& forall|i: int| 0 <= i < self.avl_data@.len() ==> (#[trigger] self.avl_data@[i]).wf()
    }
}

/// The outcome of the two integrity checks of a decoded frame.
#[derive(Debug, Clone, Copy, PartialEq, Eq, Structural)]
pub struct Integrity {
    /// The count echoed after the records equals the count before them.
    pub record_count_matches: bool,
    /// The transmitted checksum equals the one computed over the declared range.
    pub checksum_matches: bool,
}

impl Integrity {
    /// Both checks passed.
    pub open spec fn spec_is_valid(&self) -> bool {
        self.record_count_matches && self.checksum_matches
    }

    /// Both checks passed.
    #[verifier::when_used_as_spec(spec_is_valid)]
    pub fn is_valid(&self) -> (b: bool)
        ensures
            b == self.spec_is_valid(),
    {
        self.record_count_matches && self.checksum_matches
    }

    /// `Ok` when both checks passed, else the signal of the first that failed.
    pub open spec fn spec_verdict(&self) -> Result<(), CustomError> {
        if !self.record_count_matches {
            Err(CustomError::RecordCountMismatch)
        } else if !self.checksum_matches {
            Err(CustomError::ChecksumMismatch)
        } else {
            Ok(())
        }
    }

    /// The first check that failed, in the order the fields are sent: the
    /// record-count echo comes before the checksum. A caller that discards
    /// frames of doubtful integrity asks this; one that keeps them does not.
    #[verifier::when_used_as_spec(spec_verdict)]
    pub fn verdict(&self) -> (r: Result<(), CustomError>)
        ensures
            r == self.spec_verdict(),
    {
        if !self.record_count_matches {
            Err(CustomError::RecordCountMismatch)
        } else if !self.checksum_matches {
            Err(CustomError::ChecksumMismatch)
        } else {
            Ok(())
        }
    }
}

} // verus!
