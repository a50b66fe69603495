//! The values the parser produces and the renderer consumes.
use vstd::prelude::*;

verus! {

/// Which tool a latexmk pass ran.
#[derive(Debug, Clone, PartialEq, Eq)]
pub enum PassKind {
    Pdflatex,
    Bibtex,
    Other(String),
}

/// The kind of a diagnostic, with the data specific to it.
///
/// The size of an overfull box is kept as the decimal number exactly as
/// the log wrote it (e.g. `"53.32617"`); it is only ever checked to be a
/// well-formed number and printed rounded to two places.
#[derive(Debug, Clone, PartialEq, Eq)]
pub enum MessageKind {
    LatexError,
    PackageWarning { package: String },
    PackageError { package: String },
    OverfullHbox { pt: String },
    UnderfullHbox { badness: u32 },
    OverfullVbox { pt: String },
    MissingChar,
    BibtexWarning,
    ShowOutput { command: String },
}

/// The broad class a [`MessageKind`] falls into, for callers that only care
/// about the error/overfull/underfull/warning grouping (e.g. CLI filtering,
/// summary tallying) rather than the specific variant.
#[derive(Debug, Clone, Copy, PartialEq, Eq)]
pub enum Category {
    Error,
    OverfullBox,
    UnderfullBox,
    Warning,
}

/// One diagnostic, attributed to the file it occurred in.
#[derive(Debug, Clone, PartialEq, Eq)]
pub struct LogMessage {
    pub kind: MessageKind,
    pub text: String,
    pub file: String,
    /// The chain of real file-open ancestors enclosing `file`, outermost
    /// first (e.g. `["./main.tex", "./compiler.tex"]` for a file opened from
    /// within `compiler.tex`). Empty for the top-level document, and for
    /// messages that carry their own file (GCC-style errors, BibTeX
    /// warnings) rather than inheriting one from the file-open stack.
    pub ancestors: Vec<String>,
    pub line_range: Option<(u32, u32)>,
    pub page: Option<u32>,
    pub context: Vec<String>,
}

#[derive(Debug, Clone, PartialEq, Eq)]
pub enum Event {
    Message(LogMessage),
    PassBoundary(PassKind),
    PdfBuilt { path: String },
}

// ---------------------------------------------------------------------
// Mathematical views
// ---------------------------------------------------------------------

pub enum PassKindV {
    Pdflatex,
    Bibtex,
    Other(Seq<char>),
}

pub enum KindV {
    LatexError,
    PackageWarning { package: Seq<char> },
    PackageError { package: Seq<char> },
    OverfullHbox { pt: Seq<char> },
    UnderfullHbox { badness: u32 },
    OverfullVbox { pt: Seq<char> },
    MissingChar,
    BibtexWarning,
    ShowOutput { command: Seq<char> },
}

pub struct LogMessageV {
    pub kind: KindV,
    pub text: Seq<char>,
    pub file: Seq<char>,
    pub ancestors: Seq<Seq<char>>,
    pub line_range: Option<(u32, u32)>,
    pub page: Option<u32>,
    pub context: Seq<Seq<char>>,
}

pub enum EventV {
    Message(LogMessageV),
    PassBoundary(PassKindV),
    PdfBuilt { path: Seq<char> },
}

impl View for PassKind {
    type V = PassKindV;

    open spec fn view(&self) -> PassKindV {
        match self {
            PassKind::Pdflatex => PassKindV::Pdflatex,
            PassKind::Bibtex => PassKindV::Bibtex,
            PassKind::Other(s) => PassKindV::Other(s@),
        }
    }
}

impl View for MessageKind {
    type V = KindV;

    open spec fn view(&self) -> KindV {
        match self {
            MessageKind::LatexError => KindV::LatexError,
            MessageKind::PackageWarning { package } => KindV::PackageWarning { package: package@ },
            MessageKind::PackageError { package } => KindV::PackageError { package: package@ },
            MessageKind::OverfullHbox { pt } => KindV::OverfullHbox { pt: pt@ },
            MessageKind::UnderfullHbox { badness } => KindV::UnderfullHbox { badness: *badness },
            MessageKind::OverfullVbox { pt } => KindV::OverfullVbox { pt: pt@ },
            MessageKind::MissingChar => KindV::MissingChar,
            MessageKind::BibtexWarning => KindV::BibtexWarning,
            MessageKind::ShowOutput { command } => KindV::ShowOutput { command: command@ },
        }
    }
}

impl View for LogMessage {
    type V = LogMessageV;

    open spec fn view(&self) -> LogMessageV {
        LogMessageV {
            kind: self.kind@,
            text: self.text@,
            file: self.file@,
            ancestors: self.ancestors.deep_view(),
            line_range: self.line_range,
            page: self.page,
            context: self.context.deep_view(),
        }
    }
}

impl View for Event {
    type V = EventV;

    open spec fn view(&self) -> EventV {
        match self {
            Event::Message(m) => EventV::Message(m@),
            Event::PassBoundary(k) => EventV::PassBoundary(k@),
            Event::PdfBuilt { path } => EventV::PdfBuilt { path: path@ },
        }
    }
}

/// The views of a sequence of events, in order.
pub open spec fn events_view(v: Seq<Event>) -> Seq<EventV> {
    v.map_values(|e: Event| e@)
}

/// The category of a message kind.
pub open spec fn kind_category(k: KindV) -> Category {
    match k {
        KindV::LatexError | KindV::PackageError { .. } => Category::Error,
        KindV::OverfullHbox { .. } | KindV::OverfullVbox { .. } => Category::OverfullBox,
        KindV::UnderfullHbox { .. } => Category::UnderfullBox,
        KindV::PackageWarning { .. } | KindV::BibtexWarning | KindV::MissingChar
        | KindV::ShowOutput { .. } => Category::Warning,
    }
}

impl MessageKind {
    pub fn category(&self) -> (c: Category)
        ensures
            c == kind_category(self@),
    {
        match self {
            MessageKind::LatexError | MessageKind::PackageError { .. } => Category::Error,
            MessageKind::OverfullHbox { .. } | MessageKind::OverfullVbox {
                ..
            } => Category::OverfullBox,
            MessageKind::UnderfullHbox { .. } => Category::UnderfullBox,
            MessageKind::PackageWarning { .. } | MessageKind::BibtexWarning
            | MessageKind::MissingChar | MessageKind::ShowOutput { .. } => Category::Warning,
        }
    }
}

} // verus!
