//! The command codes of the legacy protocol, and how one is found in a
//! message: behind the first `SMB` mark.

use vstd::prelude::*;

verus! {

/// A command of the legacy protocol.
#[derive(Clone, Copy, Debug, PartialEq, Eq, Structural, Hash)]
pub enum SMBCommandCode {
    /// Code `0x00`.
    CreateDirectory,
    /// Code `0x01`.
    DeleteDirectory,
    /// Code `0x02`.
    Open,
    /// Code `0x03`.
    Create,
    /// Code `0x04`.
    Close,
    /// Code `0x05`.
    Flush,
    /// Code `0x06`.
    Delete,
    /// Code `0x07`.
    Rename,
    /// Code `0x08`.
    QueryInformation,
    /// Code `0x09`.
    SetInformation,
    /// Code `0x0A`.
    Read,
    /// Code `0x0B`.
    Write,
    /// Code `0x0C`.
    LockByteRange,
    /// Code `0x0D`.
    UnlockByteRange,
    /// Code `0x0E`.
    CreateTemporary,
    /// Code `0x0F`.
    CreateNew,
    /// Code `0x10`.
    CheckDirectory,
    /// Code `0x11`.
    ProcessExit,
    /// Code `0x12`.
    Seek,
    /// Code `0x13`.
    LockAndRead,
    /// Code `0x14`.
    WriteAndUnlock,
    /// Code `0x1A`.
    ReadRaw,
    /// Code `0x1B`.
    ReadMPX,
    /// Code `0x1C`.
    ReadMPXSecondary,
    /// Code `0x1D`.
    WriteRaw,
    /// Code `0x1E`.
    WriteMPX,
    /// Code `0x1F`.
    WriteMPXSecondary,
    /// Code `0x20`.
    WriteComplete,
    /// Code `0x21`.
    QueryServer,
    /// Code `0x22`.
    SetInformation2,
    /// Code `0x23`.
    QueryInformation2,
    /// Code `0x24`.
    LockingANDX,
    /// Code `0x25`.
    Transaction,
    /// Code `0x26`.
    TransactionSecondary,
    /// Code `0x27`.
    IOCTL,
    /// Code `0x28`.
    IOCTLSecondary,
    /// Code `0x29`.
    Copy,
    /// Code `0x2A`.
    Move,
    /// Code `0x2B`.
    Echo,
    /// Code `0x2C`.
    WriteAndClose,
    /// Code `0x2D`.
    OpenANDX,
    /// Code `0x2E`.
    ReadANDX,
    /// Code `0x2F`.
    WriteANDX,
    /// Code `0x30`.
    NewFileSize,
    /// Code `0x31`.
    CloseAndTreeDisc,
    /// Code `0x32`.
    Transaction2,
    /// Code `0x33`.
    Transaction2Secondary,
    /// Code `0x34`.
    FindClose2,
    /// Code `0x35`.
    FindNotifyClose,
    /// Code `0x70`.
    TreeConnect,
    /// Code `0x71`.
    TreeDisconnect,
    /// Code `0x72`.
    Negotiate,
    /// Code `0x73`.
    SessionSetupANDX,
    /// Code `0x74`.
    LogoffANDX,
    /// Code `0x75`.
    TreeConnectANDX,
    /// Code `0x80`.
    QueryInformationDisk,
    /// Code `0x81`.
    Search,
    /// Code `0x82`.
    Find,
    /// Code `0x83`.
    FindUnique,
    /// Code `0x84`.
    FindClose,
    /// Code `0xA0`.
    NTTransact,
    /// Code `0xA1`.
    NTTransactSecondary,
    /// Code `0xA2`.
    NTCreateANDX,
    /// Code `0xA3`.
    NTCancel,
    /// Code `0xA4`.
    NTRename,
    /// Code `0xC0`.
    OpenPrintFile,
    /// Code `0xC1`.
    WritePrintFile,
    /// Code `0xC2`.
    ClosePrintFile,
    /// Code `0xC3`.
    GetPrintQueue,
    /// Code `0xD9`.
    ReadBulk,
    /// Code `0xDA`.
    WriteBulkData,
}

/// The command that a code names, if any.
pub open spec fn command_of(code: u8) -> Option<SMBCommandCode> {
    match code {
        0x00 => Some(SMBCommandCode::CreateDirectory),
        0x01 => Some(SMBCommandCode::DeleteDirectory),
        0x02 => Some(SMBCommandCode::Open),
        0x03 => Some(SMBCommandCode::Create),
        0x04 => Some(SMBCommandCode::Close),
        0x05 => Some(SMBCommandCode::Flush),
        0x06 => Some(SMBCommandCode::Delete),
        0x07 => Some(SMBCommandCode::Rename),
        0x08 => Some(SMBCommandCode::QueryInformation),
        0x09 => Some(SMBCommandCode::SetInformation),
        0x0a => Some(SMBCommandCode::Read),
        0x0b => Some(SMBCommandCode::Write),
        0x0c => Some(SMBCommandCode::LockByteRange),
        0x0d => Some(SMBCommandCode::UnlockByteRange),
        0x0e => Some(SMBCommandCode::CreateTemporary),
        0x0f => Some(SMBCommandCode::CreateNew),
        0x10 => Some(SMBCommandCode::CheckDirectory),
        0x11 => Some(SMBCommandCode::ProcessExit),
        0x12 => Some(SMBCommandCode::Seek),
        0x13 => Some(SMBCommandCode::LockAndRead),
        0x14 => Some(SMBCommandCode::WriteAndUnlock),
        0x1a => Some(SMBCommandCode::ReadRaw),
        0x1b => Some(SMBCommandCode::ReadMPX),
        0x1c => Some(SMBCommandCode::ReadMPXSecondary),
        0x1d => Some(SMBCommandCode::WriteRaw),
        0x1e => Some(SMBCommandCode::WriteMPX),
        0x1f => Some(SMBCommandCode::WriteMPXSecondary),
        0x20 => Some(SMBCommandCode::WriteComplete),
        0x21 => Some(SMBCommandCode::QueryServer),
        0x22 => Some(SMBCommandCode::SetInformation2),
        0x23 => Some(SMBCommandCode::QueryInformation2),
        0x24 => Some(SMBCommandCode::LockingANDX),
        0x25 => Some(SMBCommandCode::Transaction),
        0x26 => Some(SMBCommandCode::TransactionSecondary),
        0x27 => Some(SMBCommandCode::IOCTL),
        0x28 => Some(SMBCommandCode::IOCTLSecondary),
        0x29 => Some(SMBCommandCode::Copy),
        0x2a => Some(SMBCommandCode::Move),
        0x2b => Some(SMBCommandCode::Echo),
        0x2c => Some(SMBCommandCode::WriteAndClose),
        0x2d => Some(SMBCommandCode::OpenANDX),
        0x2e => Some(SMBCommandCode::ReadANDX),
        0x2f => Some(SMBCommandCode::WriteANDX),
        0x30 => Some(SMBCommandCode::NewFileSize),
        0x31 => Some(SMBCommandCode::CloseAndTreeDisc),
        0x32 => Some(SMBCommandCode::Transaction2),
        0x33 => Some(SMBCommandCode::Transaction2Secondary),
        0x34 => Some(SMBCommandCode::FindClose2),
        0x35 => Some(SMBCommandCode::FindNotifyClose),
        0x70 => Some(SMBCommandCode::TreeConnect),
        0x71 => Some(SMBCommandCode::TreeDisconnect),
        0x72 => Some(SMBCommandCode::Negotiate),
        0x73 => Some(SMBCommandCode::SessionSetupANDX),
        0x74 => Some(SMBCommandCode::LogoffANDX),
        0x75 => Some(SMBCommandCode::TreeConnectANDX),
        0x80 => Some(SMBCommandCode::QueryInformationDisk),
        0x81 => Some(SMBCommandCode::Search),
        0x82 => Some(SMBCommandCode::Find),
        0x83 => Some(SMBCommandCode::FindUnique),
        0x84 => Some(SMBCommandCode::FindClose),
        0xa0 => Some(SMBCommandCode::NTTransact),
        0xa1 => Some(SMBCommandCode::NTTransactSecondary),
        0xa2 => Some(SMBCommandCode::NTCreateANDX),
        0xa3 => Some(SMBCommandCode::NTCancel),
        0xa4 => Some(SMBCommandCode::NTRename),
        0xc0 => Some(SMBCommandCode::OpenPrintFile),
        0xc1 => Some(SMBCommandCode::WritePrintFile),
        0xc2 => Some(SMBCommandCode::ClosePrintFile),
        0xc3 => Some(SMBCommandCode::GetPrintQueue),
        0xd9 => Some(SMBCommandCode::ReadBulk),
        0xda => Some(SMBCommandCode::WriteBulkData),
        _ => None,
    }
}

/// The position of the first byte `S` at or behind `from`, or the length of
/// the data when there is none.
pub open spec fn first_mark_from(data: Seq<u8>, from: int) -> int
    decreases data.len() - from,
{
    if from < 0 || from >= data.len() {
        data.len() as int
    } else if data[from] == 0x53 {
        from
    } else {
        first_mark_from(data, from + 1)
    }
}

/// The command of a message: the one that the byte behind the mark `SMB`
/// names, where the mark starts at the first `S` of the data. There is none
/// when the data holds no `S`, when the first `S` does not start the mark,
/// when the data ends with the mark, or when the byte names no command.
pub open spec fn parse_command(data: Seq<u8>) -> Option<SMBCommandCode> {
    let pos = first_mark_from(data, 0);
    if pos + 3 < data.len() && data[pos + 1] == 0x4d && data[pos + 2] == 0x42 {
        command_of(data[pos + 3])
    } else {
        None
    }
}

impl SMBCommandCode {
    /// The code that names the command.
    pub open spec fn spec_code(self) -> u8 {
        match self {
            SMBCommandCode::CreateDirectory => 0x00,
            SMBCommandCode::DeleteDirectory => 0x01,
            SMBCommandCode::Open => 0x02,
            SMBCommandCode::Create => 0x03,
            SMBCommandCode::Close => 0x04,
            SMBCommandCode::Flush => 0x05,
            SMBCommandCode::Delete => 0x06,
            SMBCommandCode::Rename => 0x07,
            SMBCommandCode::QueryInformation => 0x08,
            SMBCommandCode::SetInformation => 0x09,
            SMBCommandCode::Read => 0x0a,
            SMBCommandCode::Write => 0x0b,
            SMBCommandCode::LockByteRange => 0x0c,
            SMBCommandCode::UnlockByteRange => 0x0d,
            SMBCommandCode::CreateTemporary => 0x0e,
            SMBCommandCode::CreateNew => 0x0f,
            SMBCommandCode::CheckDirectory => 0x10,
            SMBCommandCode::ProcessExit => 0x11,
            SMBCommandCode::Seek => 0x12,
            SMBCommandCode::LockAndRead => 0x13,
            SMBCommandCode::WriteAndUnlock => 0x14,
            SMBCommandCode::ReadRaw => 0x1a,
            SMBCommandCode::ReadMPX => 0x1b,
            SMBCommandCode::ReadMPXSecondary => 0x1c,
            SMBCommandCode::WriteRaw => 0x1d,
            SMBCommandCode::WriteMPX => 0x1e,
            SMBCommandCode::WriteMPXSecondary => 0x1f,
            SMBCommandCode::WriteComplete => 0x20,
            SMBCommandCode::QueryServer => 0x21,
            SMBCommandCode::SetInformation2 => 0x22,
            SMBCommandCode::QueryInformation2 => 0x23,
            SMBCommandCode::LockingANDX => 0x24,
            SMBCommandCode::Transaction => 0x25,
            SMBCommandCode::TransactionSecondary => 0x26,
            SMBCommandCode::IOCTL => 0x27,
            SMBCommandCode::IOCTLSecondary => 0x28,
            SMBCommandCode::Copy => 0x29,
            SMBCommandCode::Move => 0x2a,
            SMBCommandCode::Echo => 0x2b,
            SMBCommandCode::WriteAndClose => 0x2c,
            SMBCommandCode::OpenANDX => 0x2d,
            SMBCommandCode::ReadANDX => 0x2e,
            SMBCommandCode::WriteANDX => 0x2f,
            SMBCommandCode::NewFileSize => 0x30,
            SMBCommandCode::CloseAndTreeDisc => 0x31,
            SMBCommandCode::Transaction2 => 0x32,
            SMBCommandCode::Transaction2Secondary => 0x33,
            SMBCommandCode::FindClose2 => 0x34,
            SMBCommandCode::FindNotifyClose => 0x35,
            SMBCommandCode::TreeConnect => 0x70,
            SMBCommandCode::TreeDisconnect => 0x71,
            SMBCommandCode::Negotiate => 0x72,
            SMBCommandCode::SessionSetupANDX => 0x73,
            SMBCommandCode::LogoffANDX => 0x74,
            SMBCommandCode::TreeConnectANDX => 0x75,
            SMBCommandCode::QueryInformationDisk => 0x80,
            SMBCommandCode::Search => 0x81,
            SMBCommandCode::Find => 0x82,
            SMBCommandCode::FindUnique => 0x83,
            SMBCommandCode::FindClose => 0x84,
            SMBCommandCode::NTTransact => 0xa0,
            SMBCommandCode::NTTransactSecondary => 0xa1,
            SMBCommandCode::NTCreateANDX => 0xa2,
            SMBCommandCode::NTCancel => 0xa3,
            SMBCommandCode::NTRename => 0xa4,
            SMBCommandCode::OpenPrintFile => 0xc0,
            SMBCommandCode::WritePrintFile => 0xc1,
            SMBCommandCode::ClosePrintFile => 0xc2,
            SMBCommandCode::GetPrintQueue => 0xc3,
            SMBCommandCode::ReadBulk => 0xd9,
            SMBCommandCode::WriteBulkData => 0xda,
        }
    }

    /// The code that names the command.
    #[verifier::when_used_as_spec(spec_code)]
    pub fn code(self) -> (r: u8)
        ensures
            r == self.spec_code(),
    {
        match self {
            SMBCommandCode::CreateDirectory => 0x00,
            SMBCommandCode::DeleteDirectory => 0x01,
            SMBCommandCode::Open => 0x02,
            SMBCommandCode::Create => 0x03,
            SMBCommandCode::Close => 0x04,
            SMBCommandCode::Flush => 0x05,
            SMBCommandCode::Delete => 0x06,
            SMBCommandCode::Rename => 0x07,
            SMBCommandCode::QueryInformation => 0x08,
            SMBCommandCode::SetInformation => 0x09,
            SMBCommandCode::Read => 0x0a,
            SMBCommandCode::Write => 0x0b,
            SMBCommandCode::LockByteRange => 0x0c,
            SMBCommandCode::UnlockByteRange => 0x0d,
            SMBCommandCode::CreateTemporary => 0x0e,
            SMBCommandCode::CreateNew => 0x0f,
            SMBCommandCode::CheckDirectory => 0x10,
            SMBCommandCode::ProcessExit => 0x11,
            SMBCommandCode::Seek => 0x12,
            SMBCommandCode::LockAndRead => 0x13,
            SMBCommandCode::WriteAndUnlock => 0x14,
            SMBCommandCode::ReadRaw => 0x1a,
            SMBCommandCode::ReadMPX => 0x1b,
            SMBCommandCode::ReadMPXSecondary => 0x1c,
            SMBCommandCode::WriteRaw => 0x1d,
            SMBCommandCode::WriteMPX => 0x1e,
            SMBCommandCode::WriteMPXSecondary => 0x1f,
            SMBCommandCode::WriteComplete => 0x20,
            SMBCommandCode::QueryServer => 0x21,
            SMBCommandCode::SetInformation2 => 0x22,
            SMBCommandCode::QueryInformation2 => 0x23,
            SMBCommandCode::LockingANDX => 0x24,
            SMBCommandCode::Transaction => 0x25,
            SMBCommandCode::TransactionSecondary => 0x26,
            SMBCommandCode::IOCTL => 0x27,
            SMBCommandCode::IOCTLSecondary => 0x28,
            SMBCommandCode::Copy => 0x29,
            SMBCommandCode::Move => 0x2a,
            SMBCommandCode::Echo => 0x2b,
            SMBCommandCode::WriteAndClose => 0x2c,
            SMBCommandCode::OpenANDX => 0x2d,
            SMBCommandCode::ReadANDX => 0x2e,
            SMBCommandCode::WriteANDX => 0x2f,
            SMBCommandCode::NewFileSize => 0x30,
            SMBCommandCode::CloseAndTreeDisc => 0x31,
            SMBCommandCode::Transaction2 => 0x32,
            SMBCommandCode::Transaction2Secondary => 0x33,
            SMBCommandCode::FindClose2 => 0x34,
            SMBCommandCode::FindNotifyClose => 0x35,
            SMBCommandCode::TreeConnect => 0x70,
            SMBCommandCode::TreeDisconnect => 0x71,
            SMBCommandCode::Negotiate => 0x72,
            SMBCommandCode::SessionSetupANDX => 0x73,
            SMBCommandCode::LogoffANDX => 0x74,
            SMBCommandCode::TreeConnectANDX => 0x75,
            SMBCommandCode::QueryInformationDisk => 0x80,
            SMBCommandCode::Search => 0x81,
            SMBCommandCode::Find => 0x82,
            SMBCommandCode::FindUnique => 0x83,
            SMBCommandCode::FindClose => 0x84,
            SMBCommandCode::NTTransact => 0xa0,
            SMBCommandCode::NTTransactSecondary => 0xa1,
            SMBCommandCode::NTCreateANDX => 0xa2,
            SMBCommandCode::NTCancel => 0xa3,
            SMBCommandCode::NTRename => 0xa4,
            SMBCommandCode::OpenPrintFile => 0xc0,
            SMBCommandCode::WritePrintFile => 0xc1,
            SMBCommandCode::ClosePrintFile => 0xc2,
            SMBCommandCode::GetPrintQueue => 0xc3,
            SMBCommandCode::ReadBulk => 0xd9,
            SMBCommandCode::WriteBulkData => 0xda,
        }
    }

    /// The command that a code names, if any.
    pub fn from_code(code: u8) -> (r: Option<SMBCommandCode>)
        ensures
            r == command_of(code),
    {
        match code {
            0x00 => Some(SMBCommandCode::CreateDirectory),
            0x01 => Some(SMBCommandCode::DeleteDirectory),
            0x02 => Some(SMBCommandCode::Open),
            0x03 => Some(SMBCommandCode::Create),
            0x04 => Some(SMBCommandCode::Close),
            0x05 => Some(SMBCommandCode::Flush),
            0x06 => Some(SMBCommandCode::Delete),
            0x07 => Some(SMBCommandCode::Rename),
            0x08 => Some(SMBCommandCode::QueryInformation),
            0x09 => Some(SMBCommandCode::SetInformation),
            0x0a => Some(SMBCommandCode::Read),
            0x0b => Some(SMBCommandCode::Write),
            0x0c => Some(SMBCommandCode::LockByteRange),
            0x0d => Some(SMBCommandCode::UnlockByteRange),
            0x0e => Some(SMBCommandCode::CreateTemporary),
            0x0f => Some(SMBCommandCode::CreateNew),
            0x10 => Some(SMBCommandCode::CheckDirectory),
            0x11 => Some(SMBCommandCode::ProcessExit),
            0x12 => Some(SMBCommandCode::Seek),
            0x13 => Some(SMBCommandCode::LockAndRead),
            0x14 => Some(SMBCommandCode::WriteAndUnlock),
            0x1a => Some(SMBCommandCode::ReadRaw),
            0x1b => Some(SMBCommandCode::ReadMPX),
            0x1c => Some(SMBCommandCode::ReadMPXSecondary),
            0x1d => Some(SMBCommandCode::WriteRaw),
            0x1e => Some(SMBCommandCode::WriteMPX),
            0x1f => Some(SMBCommandCode::WriteMPXSecondary),
            0x20 => Some(SMBCommandCode::WriteComplete),
            0x21 => Some(SMBCommandCode::QueryServer),
            0x22 => Some(SMBCommandCode::SetInformation2),
            0x23 => Some(SMBCommandCode::QueryInformation2),
            0x24 => Some(SMBCommandCode::LockingANDX),
            0x25 => Some(SMBCommandCode::Transaction),
            0x26 => Some(SMBCommandCode::TransactionSecondary),
            0x27 => Some(SMBCommandCode::IOCTL),
            0x28 => Some(SMBCommandCode::IOCTLSecondary),
            0x29 => Some(SMBCommandCode::Copy),
            0x2a => Some(SMBCommandCode::Move),
            0x2b => Some(SMBCommandCode::Echo),
            0x2c => Some(SMBCommandCode::WriteAndClose),
            0x2d => Some(SMBCommandCode::OpenANDX),
            0x2e => Some(SMBCommandCode::ReadANDX),
            0x2f => Some(SMBCommandCode::WriteANDX),
            0x30 => Some(SMBCommandCode::NewFileSize),
            0x31 => Some(SMBCommandCode::CloseAndTreeDisc),
            0x32 => Some(SMBCommandCode::Transaction2),
            0x33 => Some(SMBCommandCode::Transaction2Secondary),
            0x34 => Some(SMBCommandCode::FindClose2),
            0x35 => Some(SMBCommandCode::FindNotifyClose),
            0x70 => Some(SMBCommandCode::TreeConnect),
            0x71 => Some(SMBCommandCode::TreeDisconnect),
            0x72 => Some(SMBCommandCode::Negotiate),
            0x73 => Some(SMBCommandCode::SessionSetupANDX),
            0x74 => Some(SMBCommandCode::LogoffANDX),
            0x75 => Some(SMBCommandCode::TreeConnectANDX),
            0x80 => Some(SMBCommandCode::QueryInformationDisk),
            0x81 => Some(SMBCommandCode::Search),
            0x82 => Some(SMBCommandCode::Find),
            0x83 => Some(SMBCommandCode::FindUnique),
            0x84 => Some(SMBCommandCode::FindClose),
            0xa0 => Some(SMBCommandCode::NTTransact),
            0xa1 => Some(SMBCommandCode::NTTransactSecondary),
            0xa2 => Some(SMBCommandCode::NTCreateANDX),
            0xa3 => Some(SMBCommandCode::NTCancel),
            0xa4 => Some(SMBCommandCode::NTRename),
            0xc0 => Some(SMBCommandCode::OpenPrintFile),
            0xc1 => Some(SMBCommandCode::WritePrintFile),
            0xc2 => Some(SMBCommandCode::ClosePrintFile),
            0xc3 => Some(SMBCommandCode::GetPrintQueue),
            0xd9 => Some(SMBCommandCode::ReadBulk),
            0xda => Some(SMBCommandCode::WriteBulkData),
            _ => None,
        }
    }

    /// Finds the command of a message.
    pub fn parse(data: &[u8]) -> (r: Option<SMBCommandCode>)
        ensures
            r == parse_command(data@),
    {
        let n = data.len();
        let mut pos: usize = 0;
        while pos < n && data[pos] != 0x53
            invariant
                pos <= n,
                n == data@.len(),
                first_mark_from(data@, 0) == first_mark_from(data@, pos as int),
            decreases n - pos,
        {
            pos += 1;
        }
        if pos < n && n - pos > 3 && data[pos + 1] == 0x4d && data[pos + 2] == 0x42 {
            SMBCommandCode::from_code(data[pos + 3])
        } else {
            None
        }
    }
}

/// A code names the command whose code it is, and no other.
pub proof fn lemma_command_code_round_trip(command: SMBCommandCode, code: u8)
    ensures
        command_of(command.code()) == Some(command),
        command_of(code) matches Some(c) ==> c.code() == code,
{
}

} // verus!
