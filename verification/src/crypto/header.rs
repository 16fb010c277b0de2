use vstd::prelude::*;

verus! {

/// The domain of a signed statement. Its byte is signed along with the
/// statement, so that a signature made in one protocol cannot be replayed
/// in another.
#[derive(Clone, Copy, Debug, PartialEq, Eq, Structural, Hash)]
pub enum Header {
    Install,
    LatticeDecisions,
    Resolution,
    Prepare,
    Witness,
    Reduction,
    Dependency,
    BatchCompletion,
    IdRequest,
}

impl Header {
    /// The byte that stands for this domain.
    pub open spec fn spec_byte(self) -> u8 {
        match self {
            Header::Install => 0,
            Header::LatticeDecisions => 1,
            Header::Resolution => 2,
            Header::Prepare => 3,
            Header::Witness => 4,
            Header::Reduction => 5,
            Header::Dependency => 6,
            Header::BatchCompletion => 7,
            Header::IdRequest => 8,
        }
    }

    /// The domain that `byte` stands for, if any.
    pub open spec fn spec_from_byte(byte: u8) -> Option<Header> {
        if byte == 0 {
            Some(Header::Install)
        } else if byte == 1 {
            Some(Header::LatticeDecisions)
        } else if byte == 2 {
            Some(Header::Resolution)
        } else if byte == 3 {
            Some(Header::Prepare)
        } else if byte == 4 {
            Some(Header::Witness)
        } else if byte == 5 {
            Some(Header::Reduction)
        } else if byte == 6 {
            Some(Header::Dependency)
        } else if byte == 7 {
            Some(Header::BatchCompletion)
        } else if byte == 8 {
            Some(Header::IdRequest)
        } else {
            None
        }
    }

    pub fn byte(&self) -> (byte: u8)
        ensures
            byte == self.spec_byte(),
    {
        match self {
            Header::Install => 0,
            Header::LatticeDecisions => 1,
            Header::Resolution => 2,
            Header::Prepare => 3,
            Header::Witness => 4,
            Header::Reduction => 5,
            Header::Dependency => 6,
            Header::BatchCompletion => 7,
            Header::IdRequest => 8,
        }
    }

    pub fn from_byte(byte: u8) -> (header: Option<Header>)
        ensures
            header == Self::spec_from_byte(byte),
    {
        match byte {
            0 => Some(Header::Install),
            1 => Some(Header::LatticeDecisions),
            2 => Some(Header::Resolution),
            3 => Some(Header::Prepare),
            4 => Some(Header::Witness),
            5 => Some(Header::Reduction),
            6 => Some(Header::Dependency),
            7 => Some(Header::BatchCompletion),
            8 => Some(Header::IdRequest),
            _ => None,
        }
    }
}

/// Decoding the byte of a domain gives the domain back, and two domains
/// never share a byte.
pub proof fn lemma_header_round_trip(header: Header, other: Header)
    ensures
        Header::spec_from_byte(header.spec_byte()) == Some(header),
        header.spec_byte() == other.spec_byte() ==> header == other,
{
}

/// A byte that decodes to a domain is that domain's byte.
pub proof fn lemma_header_byte_round_trip(byte: u8)
    ensures
        Header::spec_from_byte(byte) matches Some(header) ==> header.spec_byte() == byte,
{
}

} // verus!
