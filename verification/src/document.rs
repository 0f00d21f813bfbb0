//! Document-level value types: target platform and assembler, the document
//! settings, labels and immediate-value display formats.
use vstd::prelude::*;

verus! {

/// The machine the memory image comes from.
#[derive(Clone, Copy, Debug, PartialEq, Eq, Structural)]
pub enum Platform {
    Commodore128,
    Commodore1541,
    Commodore64,
    CommodorePET20,
    CommodorePET40,
    CommodorePlus4,
    CommodoreVIC20,
}

impl Default for Platform {
    fn default() -> (r: Self)
        ensures
            r == Platform::Commodore64,
    {
        Platform::Commodore64
    }
}

impl Platform {
    /// Every platform, in menu order.
    pub fn all() -> (r: Vec<Platform>)
        ensures
            r@ == seq![
                Platform::Commodore128,
                Platform::Commodore1541,
                Platform::Commodore64,
                Platform::CommodorePET20,
                Platform::CommodorePET40,
                Platform::CommodorePlus4,
                Platform::CommodoreVIC20,
            ],
    {
        vec![
            Platform::Commodore128,
            Platform::Commodore1541,
            Platform::Commodore64,
            Platform::CommodorePET20,
            Platform::CommodorePET40,
            Platform::CommodorePlus4,
            Platform::CommodoreVIC20,
        ]
    }

    /// The human-readable platform name.
    pub fn display_string(&self) -> (s: String)
        ensures
            s@ == platform_name(*self),
    {
        match self {
            Platform::Commodore128 => "Commodore 128".to_string(),
            Platform::Commodore1541 => "Commodore 1541".to_string(),
            Platform::Commodore64 => "Commodore 64".to_string(),
            Platform::CommodorePET20 => "Commodore PET 2.0".to_string(),
            Platform::CommodorePET40 => "Commodore PET 4.0".to_string(),
            Platform::CommodorePlus4 => "Commodore Plus/4".to_string(),
            Platform::CommodoreVIC20 => "Commodore VIC 20".to_string(),
        }
    }
}

/// Human-readable name of a platform.
pub open spec fn platform_name(p: Platform) -> Seq<char> {
    match p {
        Platform::Commodore128 => "Commodore 128"@,
        Platform::Commodore1541 => "Commodore 1541"@,
        Platform::Commodore64 => "Commodore 64"@,
        Platform::CommodorePET20 => "Commodore PET 2.0"@,
        Platform::CommodorePET40 => "Commodore PET 4.0"@,
        Platform::CommodorePlus4 => "Commodore Plus/4"@,
        Platform::CommodoreVIC20 => "Commodore VIC 20"@,
    }
}

/// Character set used to render bytes in the hex dump.
#[derive(Clone, Copy, Debug, PartialEq, Eq, Structural)]
pub enum HexdumpViewMode {
    ScreencodeShifted,
    ScreencodeUnshifted,
    PETSCIIShifted,
    PETSCIIUnshifted,
}

impl Default for HexdumpViewMode {
    fn default() -> (r: Self)
        ensures
            r == HexdumpViewMode::ScreencodeShifted,
    {
        HexdumpViewMode::ScreencodeShifted
    }
}

/// The assembler dialect of the generated listing.
#[derive(Clone, Copy, Debug, PartialEq, Eq, Structural)]
pub enum Assembler {
    Tass64,
    Acme,
    Ca65,
    Kick,
}

impl Default for Assembler {
    fn default() -> (r: Self)
        ensures
            r == Assembler::Tass64,
    {
        Assembler::Tass64
    }
}

/// Human-readable name of an assembler.
pub open spec fn assembler_name(a: Assembler) -> Seq<char> {
    match a {
        Assembler::Tass64 => "64tass"@,
        Assembler::Acme => "ACME"@,
        Assembler::Ca65 => "ca65"@,
        Assembler::Kick => "KickAssembler"@,
    }
}

impl Assembler {
    /// Every assembler, in menu order.
    pub fn all() -> (r: Vec<Assembler>)
        ensures
            r@ == seq![Assembler::Tass64, Assembler::Acme, Assembler::Ca65, Assembler::Kick],
    {
        vec![Assembler::Tass64, Assembler::Acme, Assembler::Ca65, Assembler::Kick]
    }

    /// The human-readable assembler name.
    pub fn display_string(&self) -> (s: String)
        ensures
            s@ == assembler_name(*self),
    {
        match self {
            Assembler::Tass64 => "64tass".to_string(),
            Assembler::Acme => "ACME".to_string(),
            Assembler::Ca65 => "ca65".to_string(),
            Assembler::Kick => "KickAssembler".to_string(),
        }
    }
}

/// Per-document settings that steer the disassembly.
#[derive(Clone, Copy, Debug, PartialEq, Eq, Structural)]
pub struct DocumentSettings {
    pub all_labels: bool,
    pub preserve_long_bytes: bool,
    pub brk_single_byte: bool,
    pub patch_brk: bool,
    pub platform: Platform,
    pub assembler: Assembler,
    pub max_xref_count: usize,
    pub max_arrow_columns: usize,
    pub use_illegal_opcodes: bool,
    pub text_char_limit: usize,
    pub addresses_per_line: usize,
    pub bytes_per_line: usize,
}

/// The settings a new document starts with.
pub open spec fn default_settings() -> DocumentSettings {
    DocumentSettings {
        all_labels: false,
        preserve_long_bytes: true,
        brk_single_byte: false,
        patch_brk: false,
        platform: Platform::Commodore64,
        assembler: Assembler::Tass64,
        max_xref_count: 5,
        max_arrow_columns: 6,
        use_illegal_opcodes: false,
        text_char_limit: 40,
        addresses_per_line: 5,
        bytes_per_line: 8,
    }
}

/// The value a boolean setting that is on unless stated otherwise takes
/// when a stored document or configuration leaves it out.
pub fn default_true() -> (r: bool)
    ensures
        r,
{
    true
}

/// The cross-reference count a stored document that leaves it out gets.
pub fn default_max_xref() -> (r: usize)
    ensures
        r == default_settings().max_xref_count,
{
    5
}

/// The arrow column count a stored document that leaves it out gets.
pub fn default_max_arrow_columns() -> (r: usize)
    ensures
        r == default_settings().max_arrow_columns,
{
    6
}

/// The text line length a stored document that leaves it out gets.
pub fn default_text_char_limit() -> (r: usize)
    ensures
        r == default_settings().text_char_limit,
{
    40
}

/// The addresses per line a stored document that leaves it out gets.
pub fn default_addresses_per_line() -> (r: usize)
    ensures
        r == default_settings().addresses_per_line,
{
    5
}

/// The bytes per line a stored document that leaves it out gets.
pub fn default_bytes_per_line() -> (r: usize)
    ensures
        r == default_settings().bytes_per_line,
{
    8
}

impl Default for DocumentSettings {
    fn default() -> (r: Self)
        ensures
            r == default_settings(),
    {
        DocumentSettings {
            all_labels: false,
            preserve_long_bytes: true,
            brk_single_byte: false,
            patch_brk: false,
            platform: Platform::Commodore64,
            assembler: Assembler::Tass64,
            max_xref_count: 5,
            max_arrow_columns: 6,
            use_illegal_opcodes: false,
            text_char_limit: 40,
            addresses_per_line: 5,
            bytes_per_line: 8,
        }
    }
}

/// Who created a label.
#[derive(Clone, Copy, Debug, PartialEq, Eq, Structural)]
pub enum LabelKind {
    User,
    Auto,
    System,
}

/// What a label names; the order of the variants is the label priority.
#[derive(Clone, Copy, Debug, PartialEq, Eq, PartialOrd, Ord, Hash, Structural)]
pub enum LabelType {
    ZeroPageField,
    Field,
    ZeroPageAbsoluteAddress,
    AbsoluteAddress,
    Pointer,
    ZeroPagePointer,
    Branch,
    Jump,
    Subroutine,
    ExternalJump,
    Predefined,
    UserDefined,
}

/// The first letter of generated label names of each label type.
pub open spec fn label_prefix(t: LabelType) -> char {
    match t {
        LabelType::ZeroPageField => 'f',
        LabelType::Field => 'f',
        LabelType::ZeroPageAbsoluteAddress => 'a',
        LabelType::AbsoluteAddress => 'a',
        LabelType::Pointer => 'p',
        LabelType::ZeroPagePointer => 'p',
        LabelType::ExternalJump => 'e',
        LabelType::Jump => 'j',
        LabelType::Subroutine => 's',
        LabelType::Branch => 'b',
        LabelType::Predefined => 'L',
        LabelType::UserDefined => 'L',
    }
}

impl LabelType {
    /// The first letter of generated label names of this type.
    pub fn prefix(&self) -> (c: char)
        ensures
            c == label_prefix(*self),
    {
        match self {
            LabelType::ZeroPageField => 'f',
            LabelType::Field => 'f',
            LabelType::ZeroPageAbsoluteAddress => 'a',
            LabelType::AbsoluteAddress => 'a',
            LabelType::Pointer => 'p',
            LabelType::ZeroPagePointer => 'p',
            LabelType::ExternalJump => 'e',
            LabelType::Jump => 'j',
            LabelType::Subroutine => 's',
            LabelType::Branch => 'b',
            LabelType::Predefined => 'L',
            LabelType::UserDefined => 'L',
        }
    }
}

/// A named label at some address.
#[derive(Clone, Debug, PartialEq, Eq)]
pub struct Label {
    pub name: String,
    pub label_type: LabelType,
    pub kind: LabelKind,
}

impl Label {
    /// An equal copy of the label.
    pub fn duplicate(&self) -> (r: Label)
        ensures
            r == *self,
    {
        Label { name: self.name.clone(), label_type: self.label_type, kind: self.kind }
    }
}

/// An equal copy of a list of labels.
pub fn duplicate_labels(labels: &Vec<Label>) -> (r: Vec<Label>)
    ensures
        r@ == labels@,
{
    let mut r: Vec<Label> = Vec::new();
    let mut i: usize = 0;
    while i < labels.len()
        invariant
            i <= labels@.len(),
            r@ == labels@.subrange(0, i as int),
        decreases labels@.len() - i,
    {
        r.push(labels[i].duplicate());
        i = i + 1;
    }
    assert(r@ =~= labels@);
    r
}

/// How the operand of an immediate-mode instruction is shown.
#[derive(Clone, Copy, Debug, PartialEq, Eq, Structural)]
pub enum ImmediateFormat {
    Hex,
    InvertedHex,
    Decimal,
    NegativeDecimal,
    Binary,
    InvertedBinary,
}

/// Application-wide settings (not stored in projects).
#[derive(Clone, Debug)]
pub struct SystemConfig {
    pub open_last_project: bool,
    pub last_project_path: Option<String>,
    pub theme: String,
    pub sync_blocks_view: bool,
    pub sync_hex_dump: bool,
}

/// The theme a stored configuration that names none gets.
pub fn default_theme() -> (r: String)
    ensures
        r@ == "Solarized Dark"@,
{
    "Solarized Dark".to_string()
}

impl Default for SystemConfig {
    fn default() -> (r: Self)
        ensures
            r.open_last_project,
            r.last_project_path is None,
            r.theme@ == "Solarized Dark"@,
            r.sync_blocks_view,
            r.sync_hex_dump,
    {
        SystemConfig {
            open_last_project: true,
            last_project_path: None,
            theme: default_theme(),
            sync_blocks_view: true,
            sync_hex_dump: true,
        }
    }
}

} // verus!
