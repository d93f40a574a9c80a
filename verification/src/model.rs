//! The typed notebook document: the record tree, its mathematical models,
//! the cell-type tokens, and the decode error taxonomy.
use vstd::prelude::*;

use crate::value::Shape;

verus! {

/// A notebook document: document metadata, the ordered cells, and the
/// two format-version numbers.
#[derive(Debug)]
pub struct Notebook<'a> {
    pub metadata: NotebookMetadata<'a>,
    pub cells: Vec<NotebookCell<'a>>,
    pub nbformat: u16,
    pub nbformat_minor: u16,
}

/// Document-level metadata. `language_info` is never populated by decoding;
/// it can only be set programmatically and is emitted on encoding.
#[derive(Debug)]
pub struct NotebookMetadata<'a> {
    pub kernel_spec: KernelSpecification<'a>,
    pub language_info: Option<LanguageInfo<'a>>,
    pub authors: Vec<Author>,
}

/// The execution environment a notebook expects. `env` keeps its members in
/// input order; duplicate keys, if the input holds any, are kept as given.
#[derive(Debug)]
pub struct KernelSpecification<'a> {
    pub argv: Option<Vec<&'a str>>,
    pub display_name: &'a str,
    pub language: &'a str,
    pub env: Option<Vec<(&'a str, &'a str)>>,
    pub interrupt_mode: Option<InterruptMode>,
}

#[derive(Debug, Clone, Copy, PartialEq, Eq, Structural)]
pub enum InterruptMode {
    Signal,
    Message,
}

#[derive(Debug)]
pub struct LanguageInfo<'a> {
    pub file_extension: &'a str,
    pub mimetype: &'a str,
    pub name: &'a str,
}

#[derive(Debug)]
pub struct Author {
    pub name: String,
}

/// One unit of notebook content. Outputs are intentionally absent.
#[derive(Debug)]
pub struct NotebookCell<'a> {
    pub metadata: Metadata<'a>,
    pub source: String,
    pub cell_type: CellType,
}

#[derive(Debug, Clone, Copy, PartialEq, Eq, Structural)]
pub enum CellType {
    Markdown,
    Code,
}

/// The token offered for a cell type was neither `"markdown"` nor `"code"`.
#[derive(Debug)]
pub struct CellParseError {
    attempted: String,
}

/// Per-cell metadata.
#[derive(Debug)]
pub struct Metadata<'a> {
    pub name: &'a str,
    pub tags: Vec<&'a str>,
    pub format: &'a str,
    pub collapsed: bool,
    pub scrolled: bool,
    pub deletable: bool,
    pub editable: bool,
}

/// The field a decode error is about.
#[derive(Debug, Clone, Copy, PartialEq, Eq, Structural)]
pub enum FieldId {
    Root,
    Metadata,
    Cells,
    Nbformat,
    NbformatMinor,
    Kernelspec,
    Authors,
    AuthorName,
    Argv,
    DisplayName,
    Language,
    Env,
    InterruptMode,
    Source,
    CellType,
    Name,
    Tags,
    Format,
    Collapsed,
    Scrolled,
    Deletable,
    Editable,
}

/// Why a decode failed. Any field-level failure aborts the whole decode.
#[derive(Debug)]
pub enum DecodeError {
    /// A required field is absent.
    MissingField { field: FieldId },
    /// A field is present with the wrong shape, or an `interrupt_mode`
    /// string holds an unrecognized token.
    TypeMismatch { field: FieldId, expected: Shape, actual: Shape },
    /// A format-version number lies outside the unsigned 16-bit range.
    NumericRange { field: FieldId, value: i64 },
    /// An unrecognized cell-type token.
    Parse(CellParseError),
}

/// The mathematical model of a `DecodeError`.
pub enum ErrorModel {
    MissingField { field: FieldId },
    TypeMismatch { field: FieldId, expected: Shape, actual: Shape },
    NumericRange { field: FieldId, value: i64 },
    Parse { attempted: Seq<char> },
}

// ---------------------------------------------------------------------------
// Mathematical models of the document records.
// ---------------------------------------------------------------------------

pub struct NotebookModel {
    pub metadata: NotebookMetadataModel,
    pub cells: Seq<CellModel>,
    pub nbformat: u16,
    pub nbformat_minor: u16,
}

pub struct NotebookMetadataModel {
    pub kernel_spec: KernelSpecModel,
    pub language_info: Option<LanguageInfoModel>,
    pub authors: Seq<Seq<char>>,
}

pub struct KernelSpecModel {
    pub argv: Option<Seq<Seq<char>>>,
    pub display_name: Seq<char>,
    pub language: Seq<char>,
    pub env: Option<Seq<(Seq<char>, Seq<char>)>>,
    pub interrupt_mode: Option<InterruptMode>,
}

pub struct LanguageInfoModel {
    pub file_extension: Seq<char>,
    pub mimetype: Seq<char>,
    pub name: Seq<char>,
}

pub struct CellModel {
    pub metadata: MetadataModel,
    pub source: Seq<char>,
    pub cell_type: CellType,
}

pub struct MetadataModel {
    pub name: Seq<char>,
    pub tags: Seq<Seq<char>>,
    pub format: Seq<char>,
    pub collapsed: bool,
    pub scrolled: bool,
    pub deletable: bool,
    pub editable: bool,
}

pub open spec fn strs_model(s: Seq<&str>) -> Seq<Seq<char>> {
    Seq::new(s.len(), |i: int| s[i]@)
}

pub open spec fn authors_model(s: Seq<Author>) -> Seq<Seq<char>> {
    Seq::new(s.len(), |i: int| s[i]@)
}

pub open spec fn cells_model(s: Seq<NotebookCell>) -> Seq<CellModel> {
    Seq::new(s.len(), |i: int| s[i]@)
}

pub open spec fn env_model(s: Seq<(&str, &str)>) -> Seq<(Seq<char>, Seq<char>)> {
    Seq::new(s.len(), |i: int| (s[i].0@, s[i].1@))
}

impl<'a> View for Metadata<'a> {
    type V = MetadataModel;

    open spec fn view(&self) -> MetadataModel {
        MetadataModel {
            name: self.name@,
            tags: strs_model(self.tags@),
            format: self.format@,
            collapsed: self.collapsed,
            scrolled: self.scrolled,
            deletable: self.deletable,
            editable: self.editable,
        }
    }
}

impl View for Author {
    type V = Seq<char>;

    open spec fn view(&self) -> Seq<char> {
        self.name@
    }
}

impl<'a> View for LanguageInfo<'a> {
    type V = LanguageInfoModel;

    open spec fn view(&self) -> LanguageInfoModel {
        LanguageInfoModel {
            file_extension: self.file_extension@,
            mimetype: self.mimetype@,
            name: self.name@,
        }
    }
}

impl<'a> View for KernelSpecification<'a> {
    type V = KernelSpecModel;

    open spec fn view(&self) -> KernelSpecModel {
        KernelSpecModel {
            argv: match self.argv {
                Some(v) => Some(strs_model(v@)),
                None => None,
            },
            display_name: self.display_name@,
            language: self.language@,
            env: match self.env {
                Some(v) => Some(env_model(v@)),
                None => None,
            },
            interrupt_mode: self.interrupt_mode,
        }
    }
}

impl<'a> View for NotebookCell<'a> {
    type V = CellModel;

    open spec fn view(&self) -> CellModel {
        CellModel {
            metadata: self.metadata@,
            source: self.source@,
            cell_type: self.cell_type,
        }
    }
}

impl<'a> View for NotebookMetadata<'a> {
    type V = NotebookMetadataModel;

    open spec fn view(&self) -> NotebookMetadataModel {
        NotebookMetadataModel {
            kernel_spec: self.kernel_spec@,
            language_info: match self.language_info {
                Some(li) => Some(li@),
                None => None,
            },
            authors: authors_model(self.authors@),
        }
    }
}

impl<'a> View for Notebook<'a> {
    type V = NotebookModel;

    open spec fn view(&self) -> NotebookModel {
        NotebookModel {
            metadata: self.metadata@,
            cells: cells_model(self.cells@),
            nbformat: self.nbformat,
            nbformat_minor: self.nbformat_minor,
        }
    }
}

impl View for CellParseError {
    type V = Seq<char>;

    closed spec fn view(&self) -> Seq<char> {
        self.attempted@
    }
}

impl View for DecodeError {
    type V = ErrorModel;

    open spec fn view(&self) -> ErrorModel {
        match self {
            DecodeError::MissingField { field } => ErrorModel::MissingField { field: *field },
            DecodeError::TypeMismatch { field, expected, actual } => ErrorModel::TypeMismatch {
                field: *field,
                expected: *expected,
                actual: *actual,
            },
            DecodeError::NumericRange { field, value } => ErrorModel::NumericRange {
                field: *field,
                value: *value,
            },
            DecodeError::Parse(pe) => ErrorModel::Parse { attempted: pe@ },
        }
    }
}

// ---------------------------------------------------------------------------
// Cell-type tokens.
// ---------------------------------------------------------------------------

/// The cell type a token denotes: `"markdown"` or `"code"`, and nothing else.
pub open spec fn cell_type_of_token(s: Seq<char>) -> Result<CellType, ErrorModel> {
    if s == "markdown"@ {
        Ok(CellType::Markdown)
    } else if s == "code"@ {
        Ok(CellType::Code)
    } else {
        Err(ErrorModel::Parse { attempted: s })
    }
}

impl CellType {
    /// Parses the lowercase tokens `"markdown"` and `"code"`; any other
    /// token fails, and the error names it verbatim.
    pub fn parse_token(s: &str) -> (r: Result<CellType, CellParseError>)
        ensures
            match r {
                Ok(t) => cell_type_of_token(s@) == Ok::<CellType, ErrorModel>(t),
                Err(e) => cell_type_of_token(s@) == Err::<CellType, ErrorModel>(
                    ErrorModel::Parse { attempted: e@ },
                ),
            },
    {
        if crate::value::str_eq(s, "markdown") {
            Ok(CellType::Markdown)
        } else if crate::value::str_eq(s, "code") {
            Ok(CellType::Code)
        } else {
            Err(CellParseError { attempted: s.to_owned() })
        }
    }

    /// The token this cell type encodes to.
    pub fn token(&self) -> (r: &'static str)
        ensures
            r@ == cell_type_token(*self),
    {
        match self {
            CellType::Markdown => "markdown",
            CellType::Code => "code",
        }
    }
}

pub open spec fn cell_type_token(t: CellType) -> Seq<char> {
    match t {
        CellType::Markdown => "markdown"@,
        CellType::Code => "code"@,
    }
}

impl core::str::FromStr for CellType {
    type Err = CellParseError;

    fn from_str(s: &str) -> Result<Self, Self::Err> {
        CellType::parse_token(s)
    }
}

impl CellParseError {
    /// The token whose parse was attempted, verbatim.
    pub fn attempted(&self) -> (r: &String)
        ensures
            r@ == self@,
    {
        &self.attempted
    }
}

// ---------------------------------------------------------------------------
// Default cell metadata.
// ---------------------------------------------------------------------------

/// The documented default cell metadata: empty `name`, `tags` and `format`,
/// `collapsed = false`, `scrolled = false`, `deletable = true`,
/// `editable = true`.
pub open spec fn default_metadata_model() -> MetadataModel {
    MetadataModel {
        name: Seq::empty(),
        tags: Seq::empty(),
        format: Seq::empty(),
        collapsed: false,
        scrolled: false,
        deletable: true,
        editable: true,
    }
}

impl<'a> Default for Metadata<'a> {
    /// The default path for programmatic cell construction; decoding never
    /// falls back to these values.
    fn default() -> (r: Self)
        ensures
            r@ == default_metadata_model(),
    {
        proof {
            reveal_strlit("");
        }
        let r = Metadata {
            name: "",
            tags: Vec::new(),
            collapsed: false,
            scrolled: false,
            deletable: true,
            editable: true,
            format: "",
        };
        proof {
            assert(r@.tags =~= default_metadata_model().tags);
            assert(r@.name =~= default_metadata_model().name);
            assert(r@.format =~= default_metadata_model().format);
        }
        r
    }
}

} // verus!
