use vstd::prelude::*;
use vstd::string::StringExecFns;

verus! {

/// What went wrong, with the detail text of the failure.
#[derive(Debug, Clone)]
pub enum CalcErrorKind {
    ParseError(String),
    TypeMismatch(String),
    InvalidOperator(String),
    CompilationError(String),
    JitError(String),
    NumberError(String),
    SystemError(String),
}

/// A failure kind with its detail as a sequence of characters.
pub enum KindView {
    ParseError(Seq<char>),
    TypeMismatch(Seq<char>),
    InvalidOperator(Seq<char>),
    CompilationError(Seq<char>),
    JitError(Seq<char>),
    NumberError(Seq<char>),
    SystemError(Seq<char>),
}

impl KindView {
    /// The one-line description of the failure.
    pub open spec fn message(self) -> Seq<char> {
        match self {
            KindView::ParseError(_) => "Invalid syntax"@,
            KindView::TypeMismatch(detail) => "Type mismatch: "@ + detail,
            KindView::InvalidOperator(detail) => "Invalid operator: "@ + detail,
            KindView::CompilationError(detail) => "Compilation error: "@ + detail,
            KindView::JitError(detail) => "JIT error: "@ + detail,
            KindView::NumberError(detail) => "Invalid number: "@ + detail,
            KindView::SystemError(detail) => "System error: "@ + detail,
        }
    }
}

impl View for CalcErrorKind {
    type V = KindView;

    open spec fn view(&self) -> KindView {
        match self {
            CalcErrorKind::ParseError(detail) => KindView::ParseError(detail@),
            CalcErrorKind::TypeMismatch(detail) => KindView::TypeMismatch(detail@),
            CalcErrorKind::InvalidOperator(detail) => KindView::InvalidOperator(detail@),
            CalcErrorKind::CompilationError(detail) => KindView::CompilationError(detail@),
            CalcErrorKind::JitError(detail) => KindView::JitError(detail@),
            CalcErrorKind::NumberError(detail) => KindView::NumberError(detail@),
            CalcErrorKind::SystemError(detail) => KindView::SystemError(detail@),
        }
    }
}

fn prefixed(prefix: &str, detail: &String) -> (r: String)
    ensures
        r@ == prefix@ + detail@,
{
    let mut text = String::from_str(prefix);
    text.append(detail.as_str());
    text
}

impl CalcErrorKind {
    /// The one-line description of the failure.
    pub fn message(&self) -> (r: String)
        ensures
            r@ == self@.message(),
    {
        match self {
            CalcErrorKind::ParseError(_) => String::from_str("Invalid syntax"),
            CalcErrorKind::TypeMismatch(detail) => prefixed("Type mismatch: ", detail),
            CalcErrorKind::InvalidOperator(detail) => prefixed("Invalid operator: ", detail),
            CalcErrorKind::CompilationError(detail) => prefixed("Compilation error: ", detail),
            CalcErrorKind::JitError(detail) => prefixed("JIT error: ", detail),
            CalcErrorKind::NumberError(detail) => prefixed("Invalid number: ", detail),
            CalcErrorKind::SystemError(detail) => prefixed("System error: ", detail),
        }
    }
}

/// A source text under a name, for rendering a diagnostic.
#[derive(Debug, Clone)]
pub struct NamedSource {
    pub name: String,
    pub source: String,
}

/// A region of the source text: where it starts and how many bytes it covers.
#[derive(Debug, Clone, Copy, PartialEq, Eq, Structural)]
pub struct SourceSpan {
    pub offset: usize,
    pub length: usize,
}

/// A diagnostic: the source text, the region at fault, the kind of failure
/// and an optional hint.
#[derive(Debug, Clone)]
pub struct CalculatorError {
    pub src: NamedSource,
    pub span: SourceSpan,
    pub kind: CalcErrorKind,
    pub help: Option<String>,
}

/// A diagnostic with its texts as sequences of characters.
pub struct ErrorView {
    pub name: Seq<char>,
    pub source: Seq<char>,
    pub span: SourceSpan,
    pub kind: KindView,
    pub help: Option<Seq<char>>,
}

impl ErrorView {
    pub open spec fn message(self) -> Seq<char> {
        "Calculator error: "@ + self.kind.message()
    }
}

impl View for CalculatorError {
    type V = ErrorView;

    open spec fn view(&self) -> ErrorView {
        ErrorView {
            name: self.src.name@,
            source: self.src.source@,
            span: self.span,
            kind: self.kind@,
            help: match self.help {
                Some(hint) => Some(hint@),
                None => None,
            },
        }
    }
}

impl CalculatorError {
    /// The stable code under which this diagnostic is reported.
    pub fn code() -> (r: &'static str)
        ensures
            r@ == "calculator::error"@,
    {
        "calculator::error"
    }

    /// The headline of the diagnostic.
    pub fn message(&self) -> (r: String)
        ensures
            r@ == self@.message(),
    {
        let detail = self.kind.message();
        prefixed("Calculator error: ", &detail)
    }

    /// A diagnostic on `source`, named "calculator", covering `length` bytes
    /// from `offset`.
    pub fn on_source(source: &str, offset: usize, length: usize, kind: CalcErrorKind, help: Option<&str>) -> (r: Self)
        ensures
            r@ == (ErrorView {
                name: "calculator"@,
                source: source@,
                span: SourceSpan { offset, length },
                kind: kind@,
                help: match help {
                    Some(hint) => Some(hint@),
                    None => None,
                },
            }),
    {
        CalculatorError {
            src: NamedSource { name: String::from_str("calculator"), source: String::from_str(source) },
            span: SourceSpan { offset, length },
            kind,
            help: match help {
                Some(hint) => Some(String::from_str(hint)),
                None => None,
            },
        }
    }
}

} // verus!
