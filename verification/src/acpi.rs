//! Headers of ACPI tables and of the interrupt-controller records of the
//! multiple APIC description table.

use vstd::prelude::*;

verus! {

/// Number of bytes that a table header occupies.
pub const SDT_HEADER_LEN: usize = 36;

/// The sum of `bytes` modulo 256.
pub open spec fn byte_sum(bytes: Seq<u8>) -> u8
    decreases bytes.len(),
{
    if bytes.len() == 0 {
        0
    } else {
        ((byte_sum(bytes.drop_last()) + bytes.last()) % 256) as u8
    }
}

/// The number that four bytes hold, least significant byte first.
pub open spec fn le_u32(b0: u8, b1: u8, b2: u8, b3: u8) -> u32 {
    (b0 + 256 * b1 + 65536 * b2 + 16777216 * b3) as u32
}

/// The header that every system description table starts with.
#[derive(Clone, Copy, Debug)]
pub struct SDTHeader {
    signature: [u8; 4],
    length: u32,
    pub revision: u8,
    checksum: u8,
    oem_id: [u8; 6],
    oem_table_id: [u8; 8],
    pub oem_revision: u32,
    creator_id: [u8; 4],
    pub creator_revision: u32,
}

/// Mathematical value of a table header.
pub struct SDTHeaderView {
    pub signature: Seq<u8>,
    pub length: u32,
    pub revision: u8,
    pub checksum: u8,
    pub oem_id: Seq<u8>,
    pub oem_table_id: Seq<u8>,
    pub oem_revision: u32,
    pub creator_id: Seq<u8>,
    pub creator_revision: u32,
}

impl SDTHeaderView {
    /// The header that the first 36 bytes of `bytes` hold.
    pub open spec fn of_bytes(bytes: Seq<u8>) -> SDTHeaderView {
        SDTHeaderView {
            signature: bytes.subrange(0, 4),
            length: le_u32(bytes[4], bytes[5], bytes[6], bytes[7]),
            revision: bytes[8],
            checksum: bytes[9],
            oem_id: bytes.subrange(10, 16),
            oem_table_id: bytes.subrange(16, 24),
            oem_revision: le_u32(bytes[24], bytes[25], bytes[26], bytes[27]),
            creator_id: bytes.subrange(28, 32),
            creator_revision: le_u32(bytes[32], bytes[33], bytes[34], bytes[35]),
        }
    }

    /// Whether `table`, which starts with this header, is as long as the
    /// header says and its bytes up to that length add up to zero.
    pub open spec fn valid_for(self, table: Seq<u8>) -> bool {
        self.length <= table.len() && byte_sum(table.take(self.length as int)) == 0
    }
}

impl View for SDTHeader {
    type V = SDTHeaderView;

    closed spec fn view(&self) -> SDTHeaderView {
        SDTHeaderView {
            signature: self.signature@,
            length: self.length,
            revision: self.revision,
            checksum: self.checksum,
            oem_id: self.oem_id@,
            oem_table_id: self.oem_table_id@,
            oem_revision: self.oem_revision,
            creator_id: self.creator_id@,
            creator_revision: self.creator_revision,
        }
    }
}

fn read_le_u32(bytes: &[u8], at: usize) -> (v: u32)
    requires
        at + 4 <= bytes@.len(),
    ensures
        v == le_u32(bytes@[at as int], bytes@[at + 1], bytes@[at + 2], bytes@[at + 3]),
{
    let b0 = bytes[at] as u32;
    let b1 = bytes[at + 1] as u32;
    let b2 = bytes[at + 2] as u32;
    let b3 = bytes[at + 3] as u32;
    b0 + 256 * b1 + 65536 * b2 + 16777216 * b3
}

impl SDTHeader {
    /// Reads the header at the front of `bytes`; `None` if fewer than 36
    /// bytes are given.
    pub fn from_bytes(bytes: &[u8]) -> (header: Option<SDTHeader>)
        ensures
            header is Some <==> bytes@.len() >= SDT_HEADER_LEN,
            header matches Some(h) ==> h@ == SDTHeaderView::of_bytes(bytes@),
    {
        if bytes.len() < SDT_HEADER_LEN {
            return None;
        }
        let header = SDTHeader {
            signature: [bytes[0], bytes[1], bytes[2], bytes[3]],
            length: read_le_u32(bytes, 4),
            revision: bytes[8],
            checksum: bytes[9],
            oem_id: [bytes[10], bytes[11], bytes[12], bytes[13], bytes[14], bytes[15]],
            oem_table_id: [
                bytes[16],
                bytes[17],
                bytes[18],
                bytes[19],
                bytes[20],
                bytes[21],
                bytes[22],
                bytes[23],
            ],
            oem_revision: read_le_u32(bytes, 24),
            creator_id: [bytes[28], bytes[29], bytes[30], bytes[31]],
            creator_revision: read_le_u32(bytes, 32),
        };
        proof {
            let v = SDTHeaderView::of_bytes(bytes@);
            assert(header@.signature =~= v.signature);
            assert(header@.oem_id =~= v.oem_id);
            assert(header@.oem_table_id =~= v.oem_table_id);
            assert(header@.creator_id =~= v.creator_id);
        }
        Some(header)
    }

    /// Whether the bytes of `table`, the table that this header starts, add
    /// up to zero over the length that the header gives. A table shorter
    /// than that is not valid.
    #[must_use]
    pub fn validate(&self, table: &[u8]) -> (valid: bool)
        ensures
            valid == self@.valid_for(table@),
    {
        let length = self.length();
        if table.len() < length {
            return false;
        }
        let mut sum: u8 = 0;
        let mut i: usize = 0;
        while i < length
            invariant
                i <= length <= table@.len(),
                sum == byte_sum(table@.take(i as int)),
            decreases length - i,
        {
            proof {
                let next = table@.take(i + 1);
                assert(next.drop_last() =~= table@.take(i as int));
                assert(next.last() == table@[i as int]);
            }
            sum = sum.wrapping_add(table[i]);
            i += 1;
        }
        sum == 0
    }

    /// The length of the table, header included.
    #[must_use]
    pub fn length(&self) -> (length: usize)
        ensures
            length == self@.length,
    {
        self.length as usize
    }

    /// The four bytes that name the kind of table.
    pub fn signature_bytes(&self) -> (bytes: [u8; 4])
        ensures
            bytes@ == self@.signature,
    {
        self.signature
    }

    /// The six bytes that name the manufacturer.
    pub fn oem_id_bytes(&self) -> (bytes: [u8; 6])
        ensures
            bytes@ == self@.oem_id,
    {
        self.oem_id
    }

    /// The eight bytes that name the manufacturer's table.
    pub fn oem_table_id_bytes(&self) -> (bytes: [u8; 8])
        ensures
            bytes@ == self@.oem_table_id,
    {
        self.oem_table_id
    }

    /// The four bytes that name the tool that made the table.
    pub fn creator_id_bytes(&self) -> (bytes: [u8; 4])
        ensures
            bytes@ == self@.creator_id,
    {
        self.creator_id
    }
}

/// The header that every interrupt-controller record starts with.
#[derive(Clone, Copy, Debug, PartialEq, Eq, Structural)]
pub struct ICHeader {
    pub type_: u8,
    length: u8,
}

impl ICHeader {
    /// The length that the header gives, as a number.
    pub closed spec fn spec_length(&self) -> usize {
        self.length as usize
    }

    /// The type that the header gives.
    pub closed spec fn spec_type(&self) -> u8 {
        self.type_
    }

    /// The type that the header gives.
    #[verifier::when_used_as_spec(spec_type)]
    pub fn record_type(&self) -> (record_type: u8)
        ensures
            record_type == self.spec_type(),
    {
        self.type_
    }

    /// Reads the header at the front of `bytes`; `None` if fewer than two
    /// bytes are given.
    pub fn from_bytes(bytes: &[u8]) -> (header: Option<ICHeader>)
        ensures
            header is Some <==> bytes@.len() >= 2,
            header matches Some(h) ==> h.spec_type() == bytes@[0] && h.spec_length() == bytes@[1],
    {
        if bytes.len() < 2 {
            return None;
        }
        Some(ICHeader { type_: bytes[0], length: bytes[1] })
    }

    /// The length of the record, header included.
    #[must_use]
    #[verifier::when_used_as_spec(spec_length)]
    pub fn length(&self) -> (length: usize)
        ensures
            length == self.spec_length(),
    {
        self.length as usize
    }
}

/// An interrupt-controller record, told apart by the type in its header.
#[derive(Clone, Copy, Debug, PartialEq, Eq, Structural)]
pub enum InterruptController {
    ProcessorLocalAPIC(ICHeader),
    InputOutputAPIC(ICHeader),
    InterruptSourceOverride(ICHeader),
    NMISource(ICHeader),
    LocalApicNMI(ICHeader),
    LocalAPICAddrOverride(ICHeader),
    InputOutputSAPIC(ICHeader),
    LocalSapic(ICHeader),
    PlatformInterruptSrcs(ICHeader),
    ProcessorLocalx2APIC(ICHeader),
    Localx2APICNmi(ICHeader),
    GICCPU(ICHeader),
    GICDist(ICHeader),
    GICMSIFrame(ICHeader),
    GICRedist(ICHeader),
    GICIts(ICHeader),
    MPWakeup(ICHeader),
    Reserved(ICHeader),
    OemReserved(ICHeader),
}

impl InterruptController {
    /// The header of the record.
    pub open spec fn spec_header(self) -> ICHeader {
        match self {
            InterruptController::ProcessorLocalAPIC(h) => h,
            InterruptController::InputOutputAPIC(h) => h,
            InterruptController::InterruptSourceOverride(h) => h,
            InterruptController::NMISource(h) => h,
            InterruptController::LocalApicNMI(h) => h,
            InterruptController::LocalAPICAddrOverride(h) => h,
            InterruptController::InputOutputSAPIC(h) => h,
            InterruptController::LocalSapic(h) => h,
            InterruptController::PlatformInterruptSrcs(h) => h,
            InterruptController::ProcessorLocalx2APIC(h) => h,
            InterruptController::Localx2APICNmi(h) => h,
            InterruptController::GICCPU(h) => h,
            InterruptController::GICDist(h) => h,
            InterruptController::GICMSIFrame(h) => h,
            InterruptController::GICRedist(h) => h,
            InterruptController::GICIts(h) => h,
            InterruptController::MPWakeup(h) => h,
            InterruptController::Reserved(h) => h,
            InterruptController::OemReserved(h) => h,
        }
    }

    /// The header of the record.
    #[verifier::when_used_as_spec(spec_header)]
    pub fn header(self) -> (header: ICHeader)
        ensures
            header == self.spec_header(),
    {
        match self {
            InterruptController::ProcessorLocalAPIC(h) => h,
            InterruptController::InputOutputAPIC(h) => h,
            InterruptController::InterruptSourceOverride(h) => h,
            InterruptController::NMISource(h) => h,
            InterruptController::LocalApicNMI(h) => h,
            InterruptController::LocalAPICAddrOverride(h) => h,
            InterruptController::InputOutputSAPIC(h) => h,
            InterruptController::LocalSapic(h) => h,
            InterruptController::PlatformInterruptSrcs(h) => h,
            InterruptController::ProcessorLocalx2APIC(h) => h,
            InterruptController::Localx2APICNmi(h) => h,
            InterruptController::GICCPU(h) => h,
            InterruptController::GICDist(h) => h,
            InterruptController::GICMSIFrame(h) => h,
            InterruptController::GICRedist(h) => h,
            InterruptController::GICIts(h) => h,
            InterruptController::MPWakeup(h) => h,
            InterruptController::Reserved(h) => h,
            InterruptController::OemReserved(h) => h,
        }
    }
}

} // verus!
