//! TI calculator variable files.
//!
//! A [`write::Writer`] produces the bytes of one calculator variable file;
//! a [`read::Reader`] parses one back, validating the layout and checksum.
//! [`bundle`] aggregates several variable files into one archive.
use vstd::prelude::*;

pub mod bundle;
pub mod laws;
pub mod layout;
pub mod read;
pub mod write;

pub use layout::MAX_DATA;
pub use read::Reader;
pub use write::Writer;

verus! {

/// Types of variables.
///
/// Each type corresponds to a type byte stored in a variable file, matching
/// the tag a calculator keeps for the variable.
#[derive(Debug, PartialEq, Eq, Clone, Copy, Structural)]
pub enum VariableType {
    Real,
    List,
    Matrix,
    Equation,
    String,
    Program,
    ProtectedProgram,
    Picture,
    GDB,
    Unknown,
    UnknownEquation,
    NewEquation,
    Complex,
    ComplexList,
    Undefined,
    Window,
    Zoom,
    TableSetup,
    LCD,
    Backup,
    AppVar,
    TemporaryProgram,
    Group,
}

impl VariableType {
    /// The type byte that identifies this variable type on the wire.
    pub open spec fn spec_code(self) -> u8 {
        match self {
            VariableType::Real => 0x00,
            VariableType::List => 0x01,
            VariableType::Matrix => 0x02,
            VariableType::Equation => 0x03,
            VariableType::String => 0x04,
            VariableType::Program => 0x05,
            VariableType::ProtectedProgram => 0x06,
            VariableType::Picture => 0x07,
            VariableType::GDB => 0x08,
            VariableType::Unknown => 0x09,
            VariableType::UnknownEquation => 0x0a,
            VariableType::NewEquation => 0x0b,
            VariableType::Complex => 0x0c,
            VariableType::ComplexList => 0x0d,
            VariableType::Undefined => 0x0e,
            VariableType::Window => 0x0f,
            VariableType::Zoom => 0x10,
            VariableType::TableSetup => 0x11,
            VariableType::LCD => 0x12,
            VariableType::Backup => 0x13,
            VariableType::AppVar => 0x15,
            VariableType::TemporaryProgram => 0x16,
            VariableType::Group => 0x17,
        }
    }

    /// The type byte that identifies this variable type on the wire.
    #[verifier::when_used_as_spec(spec_code)]
    pub fn code(self) -> (c: u8)
        ensures
            c == self.spec_code(),
    {
        match self {
            VariableType::Real => 0x00,
            VariableType::List => 0x01,
            VariableType::Matrix => 0x02,
            VariableType::Equation => 0x03,
            VariableType::String => 0x04,
            VariableType::Program => 0x05,
            VariableType::ProtectedProgram => 0x06,
            VariableType::Picture => 0x07,
            VariableType::GDB => 0x08,
            VariableType::Unknown => 0x09,
            VariableType::UnknownEquation => 0x0a,
            VariableType::NewEquation => 0x0b,
            VariableType::Complex => 0x0c,
            VariableType::ComplexList => 0x0d,
            VariableType::Undefined => 0x0e,
            VariableType::Window => 0x0f,
            VariableType::Zoom => 0x10,
            VariableType::TableSetup => 0x11,
            VariableType::LCD => 0x12,
            VariableType::Backup => 0x13,
            VariableType::AppVar => 0x15,
            VariableType::TemporaryProgram => 0x16,
            VariableType::Group => 0x17,
        }
    }

    /// The variable type a type byte names, if any.
    pub open spec fn spec_from_code(c: u8) -> Option<VariableType> {
        match c {
            0x00u8 => Some(VariableType::Real),
            0x01u8 => Some(VariableType::List),
            0x02u8 => Some(VariableType::Matrix),
            0x03u8 => Some(VariableType::Equation),
            0x04u8 => Some(VariableType::String),
            0x05u8 => Some(VariableType::Program),
            0x06u8 => Some(VariableType::ProtectedProgram),
            0x07u8 => Some(VariableType::Picture),
            0x08u8 => Some(VariableType::GDB),
            0x09u8 => Some(VariableType::Unknown),
            0x0au8 => Some(VariableType::UnknownEquation),
            0x0bu8 => Some(VariableType::NewEquation),
            0x0cu8 => Some(VariableType::Complex),
            0x0du8 => Some(VariableType::ComplexList),
            0x0eu8 => Some(VariableType::Undefined),
            0x0fu8 => Some(VariableType::Window),
            0x10u8 => Some(VariableType::Zoom),
            0x11u8 => Some(VariableType::TableSetup),
            0x12u8 => Some(VariableType::LCD),
            0x13u8 => Some(VariableType::Backup),
            0x15u8 => Some(VariableType::AppVar),
            0x16u8 => Some(VariableType::TemporaryProgram),
            0x17u8 => Some(VariableType::Group),
            _ => None,
        }
    }

    /// The variable type a type byte names, if any.
    #[verifier::when_used_as_spec(spec_from_code)]
    pub fn from_code(c: u8) -> (r: Option<VariableType>)
        ensures
            r == Self::spec_from_code(c),
            r matches Some(ty) ==> ty.spec_code() == c,
    {
        match c {
            0x00u8 => Some(VariableType::Real),
            0x01u8 => Some(VariableType::List),
            0x02u8 => Some(VariableType::Matrix),
            0x03u8 => Some(VariableType::Equation),
            0x04u8 => Some(VariableType::String),
            0x05u8 => Some(VariableType::Program),
            0x06u8 => Some(VariableType::ProtectedProgram),
            0x07u8 => Some(VariableType::Picture),
            0x08u8 => Some(VariableType::GDB),
            0x09u8 => Some(VariableType::Unknown),
            0x0au8 => Some(VariableType::UnknownEquation),
            0x0bu8 => Some(VariableType::NewEquation),
            0x0cu8 => Some(VariableType::Complex),
            0x0du8 => Some(VariableType::ComplexList),
            0x0eu8 => Some(VariableType::Undefined),
            0x0fu8 => Some(VariableType::Window),
            0x10u8 => Some(VariableType::Zoom),
            0x11u8 => Some(VariableType::TableSetup),
            0x12u8 => Some(VariableType::LCD),
            0x13u8 => Some(VariableType::Backup),
            0x15u8 => Some(VariableType::AppVar),
            0x16u8 => Some(VariableType::TemporaryProgram),
            0x17u8 => Some(VariableType::Group),
            _ => None,
        }
    }

    /// Whether the on-wire layout of this type's payload is documented.
    /// For the remaining types, the layout rule is unknown: asking whether
    /// they carry a length prefix is a caller error, not a data error.
    pub open spec fn spec_layout_known(self) -> bool {
        match self {
            VariableType::Equation
            | VariableType::String
            | VariableType::GDB
            | VariableType::Program
            | VariableType::ProtectedProgram
            | VariableType::Picture
            | VariableType::Window
            | VariableType::TableSetup
            | VariableType::AppVar
            | VariableType::Real
            | VariableType::List
            | VariableType::Matrix
            | VariableType::Complex
            | VariableType::ComplexList => true,
            _ => false,
        }
    }

    /// Whether the on-wire layout of this type's payload is documented.
    #[verifier::when_used_as_spec(spec_layout_known)]
    pub fn layout_known(self) -> (r: bool)
        ensures
            r == self.spec_layout_known(),
    {
        match self {
            VariableType::Equation
            | VariableType::String
            | VariableType::GDB
            | VariableType::Program
            | VariableType::ProtectedProgram
            | VariableType::Picture
            | VariableType::Window
            | VariableType::TableSetup
            | VariableType::AppVar
            | VariableType::Real
            | VariableType::List
            | VariableType::Matrix
            | VariableType::Complex
            | VariableType::ComplexList => true,
            _ => false,
        }
    }

    /// Whether this type's payload embeds a 2-byte internal length prefix
    /// duplicating the outer data length.
    pub open spec fn spec_has_length_prefix(self) -> bool {
        match self {
            VariableType::Equation
            | VariableType::String
            | VariableType::GDB
            | VariableType::Program
            | VariableType::ProtectedProgram
            | VariableType::Picture
            | VariableType::Window
            | VariableType::TableSetup
            | VariableType::AppVar => true,
            _ => false,
        }
    }

    /// Whether this type's payload embeds a 2-byte internal length prefix.
    #[verifier::when_used_as_spec(spec_has_length_prefix)]
    pub fn has_length_prefix(self) -> (r: bool)
        requires
            self.spec_layout_known(),
        ensures
            r == self.spec_has_length_prefix(),
    {
        match self {
            VariableType::Equation
            | VariableType::String
            | VariableType::GDB
            | VariableType::Program
            | VariableType::ProtectedProgram
            | VariableType::Picture
            | VariableType::Window
            | VariableType::TableSetup
            | VariableType::AppVar => true,
            _ => false,
        }
    }

    /// Whether a customary file extension is known for this type.
    pub open spec fn spec_extension_known(self) -> bool {
        match self {
            VariableType::Real
            | VariableType::Complex
            | VariableType::List
            | VariableType::ComplexList
            | VariableType::Matrix
            | VariableType::Equation
            | VariableType::String
            | VariableType::Program
            | VariableType::ProtectedProgram
            | VariableType::Picture
            | VariableType::GDB
            | VariableType::Zoom
            | VariableType::TableSetup
            | VariableType::AppVar
            | VariableType::Group => true,
            _ => false,
        }
    }

    /// Whether a customary file extension is known for this type.
    #[verifier::when_used_as_spec(spec_extension_known)]
    pub fn extension_known(self) -> (r: bool)
        ensures
            r == self.spec_extension_known(),
    {
        match self {
            VariableType::Real
            | VariableType::Complex
            | VariableType::List
            | VariableType::ComplexList
            | VariableType::Matrix
            | VariableType::Equation
            | VariableType::String
            | VariableType::Program
            | VariableType::ProtectedProgram
            | VariableType::Picture
            | VariableType::GDB
            | VariableType::Zoom
            | VariableType::TableSetup
            | VariableType::AppVar
            | VariableType::Group => true,
            _ => false,
        }
    }

    /// The customary file extension for this type.
    pub open spec fn spec_extension(self) -> Seq<char> {
        match self {
            VariableType::Real => "8xn"@,
            VariableType::Complex => "8xc"@,
            VariableType::List | VariableType::ComplexList => "8xl"@,
            VariableType::Matrix => "8xm"@,
            VariableType::Equation => "8xy"@,
            VariableType::String => "8xs"@,
            VariableType::Program | VariableType::ProtectedProgram => "8xp"@,
            VariableType::Picture => "8xi"@,
            VariableType::GDB => "8xd"@,
            VariableType::Zoom => "8xz"@,
            VariableType::TableSetup => "8xt"@,
            VariableType::AppVar => "8xv"@,
            VariableType::Group => "8xg"@,
            _ => Seq::<char>::empty(),
        }
    }

    /// Return the customary file extension associated with a file of a
    /// given variable type.
    pub fn file_extension(&self) -> (r: &'static str)
        requires
            self.spec_extension_known(),
        ensures
            r@ == self.spec_extension(),
            r@.len() == 3,
    {
        let r = match self {
            VariableType::Real => "8xn",
            VariableType::Complex => "8xc",
            VariableType::List | VariableType::ComplexList => "8xl",
            VariableType::Matrix => "8xm",
            VariableType::Equation => "8xy",
            VariableType::String => "8xs",
            VariableType::Program | VariableType::ProtectedProgram => "8xp",
            VariableType::Picture => "8xi",
            VariableType::GDB => "8xd",
            VariableType::Zoom => "8xz",
            VariableType::TableSetup => "8xt",
            VariableType::AppVar => "8xv",
            VariableType::Group => "8xg",
            VariableType::Unknown
            | VariableType::UnknownEquation
            | VariableType::NewEquation
            | VariableType::Undefined
            | VariableType::Window
            | VariableType::LCD
            | VariableType::Backup
            | VariableType::TemporaryProgram => "",
        };
        proof {
            reveal_strlit("8xn");
            reveal_strlit("8xc");
            reveal_strlit("8xl");
            reveal_strlit("8xm");
            reveal_strlit("8xy");
            reveal_strlit("8xs");
            reveal_strlit("8xp");
            reveal_strlit("8xi");
            reveal_strlit("8xd");
            reveal_strlit("8xz");
            reveal_strlit("8xt");
            reveal_strlit("8xv");
            reveal_strlit("8xg");
        }
        r
    }
}

} // verus!
