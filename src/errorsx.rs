//! Structured error records.
//!
//! An [`ErrorX`] holds a message, the place in the source text that the
//! failure was first detected at, a backtrace taken when the record was
//! finished, an ordered list of context notes, an optional cause, and optional
//! status metadata for a transport layer. Records are made through an
//! [`ErrorXBuilder`]: `ErrorX::builder(..)` stages the fields, the `with_*`
//! methods annotate them, and `build` takes the backtrace and finishes the
//! record, after which nothing in it changes.
use vstd::prelude::*;

verus! {

/// Where a record was first created: a source file and a line in it.
pub struct Location {
    pub file: String,
    pub line: u32,
}

impl View for Location {
    type V = (Seq<char>, u32);

    open spec fn view(&self) -> (Seq<char>, u32) {
        (self.file@, self.line)
    }
}

impl Location {
    /// The source file.
    pub fn file(&self) -> (r: &str)
        ensures
            r@ == self.file@,
    {
        self.file.as_str()
    }

    /// The line in the source file.
    pub fn line(&self) -> (r: u32)
        ensures
            r == self.line,
    {
        self.line
    }
}

/// What caused a record: an error known by its rendered text (and the error
/// that caused that one, if any), or another record.
pub enum Cause {
    Foreign { text: String, source: Option<Box<Cause>> },
    Record(Box<ErrorX>),
}

impl Cause {
    /// The text this cause renders as.
    pub open spec fn text(&self) -> Seq<char> {
        match self {
            Cause::Foreign { text, .. } => text@,
            Cause::Record(r) => r.rendered(),
        }
    }

    /// The cause of this cause, if any.
    pub open spec fn spec_source(&self) -> Option<Cause> {
        match self {
            Cause::Foreign { source, .. } => match source {
                Some(b) => Some(**b),
                None => None,
            },
            Cause::Record(r) => r@.source,
        }
    }

    /// An error known only by its text, with no further cause.
    pub fn from_text(text: &str) -> (r: Cause)
        ensures
            r.text() == text@,
            r.spec_source() is None,
    {
        Cause::Foreign { text: String::from_str(text), source: None }
    }

    /// Renders this cause as text.
    pub fn render(&self) -> (r: String)
        ensures
            r@ == self.text(),
    {
        match self {
            Cause::Foreign { text, .. } => text.clone(),
            Cause::Record(r) => r.render(),
        }
    }

    /// The cause of this cause, which lets a chain of causes be walked.
    pub fn source(&self) -> (r: Option<&Cause>)
        ensures
            match r {
                Some(c) => self.spec_source() == Some(*c),
                None => self.spec_source() is None,
            },
    {
        match self {
            Cause::Foreign { source, .. } => match source {
                Some(b) => Some(&**b),
                None => None,
            },
            Cause::Record(r) => r.source(),
        }
    }
}

/// The fields of a record, or of a builder before it is finished, as
/// mathematical values. The backtrace is not among them: it only exists once
/// a record is built.
pub struct ErrorFields {
    pub message: Seq<char>,
    pub file: Seq<char>,
    pub line: u32,
    pub context: Seq<Seq<char>>,
    pub source: Option<Cause>,
    pub status_code: Option<u32>,
    pub status: Option<Seq<char>>,
}

/// The fields of a builder fresh from `init`: the message and location, no
/// context, no cause and no status.
pub open spec fn initial_fields(message: Seq<char>, file: Seq<char>, line: u32) -> ErrorFields {
    ErrorFields {
        message,
        file,
        line,
        context: Seq::empty(),
        source: None,
        status_code: None,
        status: None,
    }
}

impl ErrorFields {
    /// `c` appended to the context; the rest unchanged.
    pub open spec fn add_context(self, c: Seq<char>) -> ErrorFields {
        ErrorFields { context: self.context.push(c), ..self }
    }

    /// The cause replaced by `e`; the rest unchanged.
    pub open spec fn set_source(self, e: Cause) -> ErrorFields {
        ErrorFields { source: Some(e), ..self }
    }

    /// The status code replaced by `code`; the rest unchanged.
    pub open spec fn set_status_code(self, code: u32) -> ErrorFields {
        ErrorFields { status_code: Some(code), ..self }
    }

    /// The status replaced by `status`; the rest unchanged.
    pub open spec fn set_status(self, status: Seq<char>) -> ErrorFields {
        ErrorFields { status: Some(status), ..self }
    }

    /// One annotation applied, as the builder method of the same name does.
    pub open spec fn annotate(self, a: Annotation) -> ErrorFields {
        match a {
            Annotation::Context(c) => self.add_context(c),
            Annotation::Source(e) => self.set_source(e),
            Annotation::StatusCode(code) => self.set_status_code(code),
            Annotation::Status(status) => self.set_status(status),
        }
    }

    /// Each annotation of `steps` applied, in order.
    pub open spec fn annotate_all(self, steps: Seq<Annotation>) -> ErrorFields
        decreases steps.len(),
    {
        if steps.len() == 0 {
            self
        } else {
            self.annotate_all(steps.drop_last()).annotate(steps.last())
        }
    }
}

/// One call of a builder's annotation methods, with its argument:
/// `with_context`, `with_source`, `with_status_code` or `with_status`.
pub enum Annotation {
    Context(Seq<char>),
    Source(Cause),
    StatusCode(u32),
    Status(Seq<char>),
}

/// The context notes among `steps`, in order.
pub open spec fn context_notes(steps: Seq<Annotation>) -> Seq<Seq<char>>
    decreases steps.len(),
{
    if steps.len() == 0 {
        Seq::empty()
    } else {
        match steps.last() {
            Annotation::Context(c) => context_notes(steps.drop_last()).push(c),
            _ => context_notes(steps.drop_last()),
        }
    }
}

/// The parts joined into one text, with `sep` between each two neighbours.
pub open spec fn joined(parts: Seq<Seq<char>>, sep: Seq<char>) -> Seq<char>
    decreases parts.len(),
{
    if parts.len() == 0 {
        Seq::empty()
    } else if parts.len() == 1 {
        parts[0]
    } else {
        joined(parts.drop_last(), sep) + sep + parts.last()
    }
}

/// The character of a decimal digit.
pub open spec fn digit_char(d: nat) -> char {
    "0123456789"@[d as int]
}

/// The decimal numeral of `n`, without leading zeros.
pub open spec fn decimal(n: nat) -> Seq<char>
    decreases n,
{
    if n < 10 {
        seq![digit_char(n)]
    } else {
        decimal(n / 10) + seq![digit_char(n % 10)]
    }
}

/// The text a record renders as:
/// ```text
/// Message:<message>,
/// Location: (at: <file>, line_no:<line>),
/// Context: <context joined by ",">,
/// Source:
///  <backtrace>
/// ```
pub open spec fn render_text(f: ErrorFields, backtrace: Seq<char>) -> Seq<char> {
    "Message:"@ + f.message + ",\nLocation: (at: "@ + f.file + ", line_no:"@ + decimal(
        f.line as nat,
    ) + "),\nContext: "@ + joined(f.context, ","@) + ",\nSource:\n "@ + backtrace
}

/// True when `t` occurs in `s` as a contiguous part.
pub open spec fn contains(s: Seq<char>, t: Seq<char>) -> bool {
    exists|i: int| 0 <= i && i + t.len() <= s.len() && #[trigger] s.subrange(i, i + t.len()) == t
}

/// Relies on std::backtrace::Backtrace::force_capture: the stack of the
/// calling thread, in its pretty-printed debug form. What it holds depends
/// on the machine and the build, so nothing is stated of it.
#[verifier::external_body]
fn capture_backtrace() -> String {
    format!("{:#?}", std::backtrace::Backtrace::force_capture())
}

/// The decimal numeral of `n`.
fn decimal_string(n: u32) -> (r: String)
    ensures
        r@ == decimal(n as nat),
{
    let digits: &str = "0123456789";
    proof {
        reveal_strlit("0123456789");
    }
    let mut rest: u32 = n;
    let mut acc = String::new();
    // the digits of `n` below those of `rest`, most significant first
    let ghost mut low: Seq<char> = Seq::empty();
    loop
        invariant
            digits@ == "0123456789"@,
            acc@ == low,
            decimal(n as nat) == decimal(rest as nat) + low,
            rest > 0 || n == 0,
        decreases rest,
    {
        let d: usize = (rest % 10) as usize;
        proof {
            reveal_strlit("0123456789");
        }
        let piece = digits.substring_char(d, d + 1);
        assert(piece@ =~= seq![digit_char(d as nat)]);
        let mut next = String::from_str(piece);
        next.append(acc.as_str());
        proof {
            if rest >= 10 {
                assert(decimal(rest as nat) == decimal((rest / 10) as nat) + seq![digit_char(d as nat)]);
                assert(decimal(n as nat) =~= decimal((rest / 10) as nat) + (seq![digit_char(d as nat)] + low));
            } else {
                assert(decimal(n as nat) =~= seq![digit_char(d as nat)] + low);
            }
            low = seq![digit_char(d as nat)] + low;
        }
        acc = next;
        rest = rest / 10;
        if rest == 0 {
            return acc;
        }
    }
}

/// The parts joined into one text, with `sep` between each two neighbours.
fn join_strings(parts: &Vec<String>, sep: &str) -> (r: String)
    ensures
        r@ == joined(parts@.map_values(|s: String| s@), sep@),
{
    let ghost views = parts@.map_values(|s: String| s@);
    let mut acc = String::new();
    let mut i: usize = 0;
    while i < parts.len()
        invariant
            i <= parts.len(),
            views == parts@.map_values(|s: String| s@),
            acc@ == joined(views.take(i as int), sep@),
        decreases parts.len() - i,
    {
        if i > 0 {
            acc.append(sep);
        }
        acc.append(parts[i].as_str());
        proof {
            let next = views.take(i + 1);
            assert(next.drop_last() =~= views.take(i as int));
            if i == 0 {
                assert(joined(next, sep@) == next[0]);
                assert(acc@ =~= next[0]);
            }
        }
        i = i + 1;
    }
    assert(views.take(i as int) =~= views);
    acc
}

/// A finished, immutable error record.
pub struct ErrorX {
    message: String,
    backtrace: String,
    location: Location,
    context: Vec<String>,
    source: Option<Box<Cause>>,
    status_code: Option<u32>,
    status: Option<String>,
}

impl View for ErrorX {
    type V = ErrorFields;

    closed spec fn view(&self) -> ErrorFields {
        ErrorFields {
            message: self.message@,
            file: self.location.file@,
            line: self.location.line,
            context: self.context@.map_values(|s: String| s@),
            source: match self.source {
                Some(b) => Some(*b),
                None => None,
            },
            status_code: self.status_code,
            status: match self.status {
                Some(s) => Some(s@),
                None => None,
            },
        }
    }
}

/// Stages the fields of a record until `build` finishes it.
pub struct ErrorXBuilder {
    message: String,
    context: Vec<String>,
    location: Location,
    source: Option<Box<Cause>>,
    status_code: Option<u32>,
    status: Option<String>,
}

impl View for ErrorXBuilder {
    type V = ErrorFields;

    closed spec fn view(&self) -> ErrorFields {
        ErrorFields {
            message: self.message@,
            file: self.location.file@,
            line: self.location.line,
            context: self.context@.map_values(|s: String| s@),
            source: match self.source {
                Some(b) => Some(*b),
                None => None,
            },
            status_code: self.status_code,
            status: match self.status {
                Some(s) => Some(s@),
                None => None,
            },
        }
    }
}

impl ErrorXBuilder {
    /// Starts a builder for a record with `message`, created at `file`, `line`:
    /// empty context, no cause, no status.
    pub fn init(message: &str, file: &str, line: u32) -> (r: ErrorXBuilder)
        ensures
            r@ == initial_fields(message@, file@, line),
    {
        let r = ErrorXBuilder {
            message: String::from_str(message),
            context: Vec::new(),
            location: Location { file: String::from_str(file), line },
            source: None,
            status_code: None,
            status: None,
        };
        assert(r@.context =~= Seq::<Seq<char>>::empty());
        r
    }

    /// Appends `context` to the context notes.
    pub fn with_context(self, context: &str) -> (r: ErrorXBuilder)
        ensures
            r@ == self@.add_context(context@),
    {
        let mut b = self;
        b.context.push(String::from_str(context));
        assert(b@.context =~= self@.context.push(context@));
        b
    }

    /// Sets the cause, replacing any earlier one.
    pub fn with_source(self, source: Cause) -> (r: ErrorXBuilder)
        ensures
            r@ == self@.set_source(source),
    {
        let mut b = self;
        b.source = Some(Box::new(source));
        b
    }

    /// Sets the status code, replacing any earlier one. Any value is taken.
    pub fn with_status_code(self, status_code: u32) -> (r: ErrorXBuilder)
        ensures
            r@ == self@.set_status_code(status_code),
    {
        let mut b = self;
        b.status_code = Some(status_code);
        b
    }

    /// Sets the status text, replacing any earlier one.
    pub fn with_status(self, status: &str) -> (r: ErrorXBuilder)
        ensures
            r@ == self@.set_status(status@),
    {
        let mut b = self;
        b.status = Some(String::from_str(status));
        b
    }

    /// Finishes the record: the staged fields as they stand, and a backtrace
    /// taken now.
    pub fn build(self) -> (r: ErrorX)
        ensures
            r@ == self@,
    {
        ErrorX {
            message: self.message,
            context: self.context,
            location: self.location,
            backtrace: capture_backtrace(),
            source: self.source,
            status_code: self.status_code,
            status: self.status,
        }
    }
}

impl ErrorX {
    /// The backtrace taken when the record was built, as text.
    pub closed spec fn spec_backtrace(&self) -> Seq<char> {
        self.backtrace@
    }

    /// The text this record renders as.
    pub open spec fn rendered(&self) -> Seq<char> {
        render_text(self@, self.spec_backtrace())
    }

    /// A record with `message`, created at `file`, `line`, and nothing more.
    pub fn new(message: &str, file: &str, line: u32) -> (r: ErrorX)
        ensures
            r@ == initial_fields(message@, file@, line),
    {
        ErrorXBuilder::init(message, file, line).build()
    }

    /// A builder for a record with `message`, created at `file`, `line`.
    pub fn builder(message: &str, file: &str, line: u32) -> (r: ErrorXBuilder)
        ensures
            r@ == initial_fields(message@, file@, line),
    {
        ErrorXBuilder::init(message, file, line)
    }

    /// The message.
    pub fn message(&self) -> (r: &str)
        ensures
            r@ == self@.message,
    {
        self.message.as_str()
    }

    /// The context notes, in the order they were added.
    pub fn context(&self) -> (r: &Vec<String>)
        ensures
            r@.map_values(|s: String| s@) == self@.context,
    {
        &self.context
    }

    /// Where the record was first created.
    pub fn location(&self) -> (r: &Location)
        ensures
            r@ == (self@.file, self@.line),
    {
        &self.location
    }

    /// The backtrace taken when the record was built.
    pub fn backtrace(&self) -> (r: &str)
        ensures
            r@ == self.spec_backtrace(),
    {
        self.backtrace.as_str()
    }

    /// The status code, if one was set.
    pub fn status_code(&self) -> (r: &Option<u32>)
        ensures
            *r == self@.status_code,
    {
        &self.status_code
    }

    /// The status text, if one was set.
    pub fn status(&self) -> (r: &Option<String>)
        ensures
            match *r {
                Some(s) => self@.status == Some(s@),
                None => self@.status is None,
            },
    {
        &self.status
    }

    /// The cause, if one was set.
    pub fn source(&self) -> (r: Option<&Cause>)
        ensures
            match r {
                Some(c) => self@.source == Some(*c),
                None => self@.source is None,
            },
    {
        match &self.source {
            Some(b) => Some(&**b),
            None => None,
        }
    }

    /// Renders the record as text.
    pub fn render(&self) -> (r: String)
        ensures
            r@ == self.rendered(),
    {
        let mut s = String::from_str("Message:");
        s.append(self.message.as_str());
        s.append(",\nLocation: (at: ");
        s.append(self.location.file.as_str());
        s.append(", line_no:");
        let line = decimal_string(self.location.line);
        s.append(line.as_str());
        s.append("),\nContext: ");
        let ctx = join_strings(&self.context, ",");
        s.append(ctx.as_str());
        s.append(",\nSource:\n ");
        s.append(self.backtrace.as_str());
        s
    }
}

/// Context notes come out of the record in the order they were added,
/// whatever other annotations stand between them: a builder fresh from `init`,
/// annotated by `steps`, holds exactly the notes of `steps`, in order.
pub proof fn lemma_context_in_call_order(
    message: Seq<char>,
    file: Seq<char>,
    line: u32,
    steps: Seq<Annotation>,
)
    ensures
        initial_fields(message, file, line).annotate_all(steps).context == context_notes(steps),
{
    lemma_context_appended(initial_fields(message, file, line), steps);
    assert(Seq::<Seq<char>>::empty() + context_notes(steps) =~= context_notes(steps));
}

/// Annotating appends the notes of the steps to the context already there.
proof fn lemma_context_appended(f: ErrorFields, steps: Seq<Annotation>)
    ensures
        f.annotate_all(steps).context == f.context + context_notes(steps),
    decreases steps.len(),
{
    if steps.len() == 0 {
        assert(f.context + Seq::<Seq<char>>::empty() =~= f.context);
    } else {
        lemma_context_appended(f, steps.drop_last());
        let rest = f.context + context_notes(steps.drop_last());
        match steps.last() {
            Annotation::Context(c) => {
                assert(rest.push(c) =~= f.context + context_notes(steps.drop_last()).push(c));
            },
            _ => {},
        }
    }
}

/// The location is fixed when a builder starts: no chain of annotations
/// changes it, nor the message, and `build` keeps every field (its record's
/// fields are the builder's).
pub proof fn lemma_location_fixed_at_init(f: ErrorFields, steps: Seq<Annotation>)
    ensures
        f.annotate_all(steps).file == f.file,
        f.annotate_all(steps).line == f.line,
        f.annotate_all(steps).message == f.message,
    decreases steps.len(),
{
    if steps.len() > 0 {
        lemma_location_fixed_at_init(f, steps.drop_last());
    }
}

/// Annotating with two chains one after the other is annotating with the
/// chain of both.
proof fn lemma_annotate_concat(f: ErrorFields, a: Seq<Annotation>, b: Seq<Annotation>)
    ensures
        f.annotate_all(a + b) == f.annotate_all(a).annotate_all(b),
    decreases b.len(),
{
    if b.len() == 0 {
        assert(a + b =~= a);
    } else {
        lemma_annotate_concat(f, a, b.drop_last());
        assert((a + b).drop_last() =~= a + b.drop_last());
    }
}

/// Annotations other than a cause leave the cause as it was.
proof fn lemma_cause_untouched(f: ErrorFields, steps: Seq<Annotation>)
    requires
        forall|i: int| 0 <= i < steps.len() ==> !(#[trigger] steps[i] is Source),
    ensures
        f.annotate_all(steps).source == f.source,
    decreases steps.len(),
{
    if steps.len() > 0 {
        assert(steps.last() == steps[steps.len() - 1]);
        lemma_cause_untouched(f, steps.drop_last());
    }
}

/// A cause attached with `with_source`, and not replaced by a later
/// `with_source`, is the one the record hands back, so it renders as the
/// same text, whatever other annotations come before or after it.
pub proof fn lemma_attached_cause_text(
    f: ErrorFields,
    before: Seq<Annotation>,
    e: Cause,
    after: Seq<Annotation>,
)
    requires
        forall|i: int| 0 <= i < after.len() ==> !(#[trigger] after[i] is Source),
    ensures
        f.annotate_all(before.push(Annotation::Source(e)) + after).source == Some(e),
        f.annotate_all(before.push(Annotation::Source(e)) + after).source.unwrap().text()
            == e.text(),
{
    let pre = before.push(Annotation::Source(e));
    lemma_annotate_concat(f, pre, after);
    assert(pre.drop_last() =~= before);
    lemma_cause_untouched(f.annotate_all(pre), after);
}

/// Setting the status code, the status or the cause twice keeps only the
/// second value, as if the first call had not been made.
pub proof fn lemma_last_setting_wins(
    f: ErrorFields,
    c1: u32,
    c2: u32,
    s1: Seq<char>,
    s2: Seq<char>,
    e1: Cause,
    e2: Cause,
)
    ensures
        f.set_status_code(c1).set_status_code(c2) == f.set_status_code(c2),
        f.set_status(s1).set_status(s2) == f.set_status(s2),
        f.set_source(e1).set_source(e2) == f.set_source(e2),
{
}

/// The rendered text of every record holds the labels `Context:` and
/// `Source`, and the message, whatever else was set.
pub proof fn lemma_render_mentions(f: ErrorFields, backtrace: Seq<char>)
    ensures
        contains(render_text(f, backtrace), "Context:"@),
        contains(render_text(f, backtrace), "Source"@),
        contains(render_text(f, backtrace), f.message),
{
    reveal_strlit("Message:");
    reveal_strlit(",\nLocation: (at: ");
    reveal_strlit(", line_no:");
    reveal_strlit("),\nContext: ");
    reveal_strlit(",\nSource:\n ");
    reveal_strlit("Context:");
    reveal_strlit("Source");
    let t = render_text(f, backtrace);
    let head = "Message:"@ + f.message + ",\nLocation: (at: "@ + f.file + ", line_no:"@ + decimal(
        f.line as nat,
    );
    let ctx_at: int = head.len() as int + 3;
    let mid = head + "),\nContext: "@ + joined(f.context, ","@);
    let src_at: int = mid.len() as int + 2;
    assert(t.subrange(8, 8 + f.message.len() as int) =~= f.message);
    assert(t.subrange(ctx_at, ctx_at + 8) =~= "Context:"@);
    assert(t.subrange(src_at, src_at + 6) =~= "Source"@);
}

} // verus!
